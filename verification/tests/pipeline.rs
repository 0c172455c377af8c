use rust_file_sync::cloud::CloudProvider;
use rust_file_sync::compression::compress_file;
use rust_file_sync::compression::decompress_file;
use rust_file_sync::encryption::AesEncryption;
use rust_file_sync::error::SyncError;
use rust_file_sync::pipeline::Action;
use rust_file_sync::pipeline::Invocation;
use rust_file_sync::pipeline::PipelineState;
use rust_file_sync::pipeline::Progress;
use rust_file_sync::pipeline::Scratch;
use rust_file_sync::pipeline::Stage;
use std::cell::RefCell;
use std::collections::BTreeMap;

/// Files by path, in memory.
struct Disk {
    files: RefCell<BTreeMap<String, Vec<u8>>>,
    undeletable: RefCell<Vec<String>>,
}

impl Disk {
    fn with(path: &str, contents: &[u8]) -> Disk {
        let disk = Disk { files: RefCell::new(BTreeMap::new()), undeletable: RefCell::new(vec![]) };
        disk.files.borrow_mut().insert(path.to_string(), contents.to_vec());
        disk
    }

    fn read(&self, path: &str) -> Result<Vec<u8>, SyncError> {
        self.files.borrow().get(path).cloned().ok_or(SyncError::Transform)
    }

    fn write(&self, path: &str, contents: Vec<u8>) {
        self.files.borrow_mut().insert(path.to_string(), contents);
    }

    fn remove(&self, path: &str) -> Result<(), SyncError> {
        if self.undeletable.borrow().iter().any(|p| p == path) {
            return Err(SyncError::Transform);
        }
        match self.files.borrow_mut().remove(path) {
            Some(_) => Ok(()),
            None => Err(SyncError::NotFound),
        }
    }

    fn paths(&self) -> Vec<String> {
        self.files.borrow().keys().cloned().collect()
    }
}

/// A backend that keeps what is uploaded, or refuses everything.
struct Store<'a> {
    disk: &'a Disk,
    objects: RefCell<BTreeMap<String, Vec<u8>>>,
    failing: bool,
}

impl<'a> Store<'a> {
    fn new(disk: &'a Disk, failing: bool) -> Store<'a> {
        Store { disk, objects: RefCell::new(BTreeMap::new()), failing }
    }
}

impl<'a> CloudProvider for Store<'a> {
    fn upload_file(&self, local_path: &str, remote_path: &str) -> Result<(), SyncError> {
        if self.failing {
            return Err(SyncError::Backend);
        }
        let contents = self.disk.read(local_path).map_err(|_| SyncError::Backend)?;
        self.objects.borrow_mut().insert(remote_path.to_string(), contents);
        Ok(())
    }

    fn download_file(&self, remote_path: &str, local_path: &str) -> Result<(), SyncError> {
        match self.objects.borrow().get(remote_path) {
            Some(contents) => {
                self.disk.write(local_path, contents.clone());
                Ok(())
            }
            None => Err(SyncError::NotFound),
        }
    }

    fn delete_file(&self, remote_path: &str) -> Result<(), SyncError> {
        match self.objects.borrow_mut().remove(remote_path) {
            Some(_) => Ok(()),
            None => Err(SyncError::NotFound),
        }
    }

    fn list_files(&self, prefix: &str) -> Result<Vec<String>, SyncError> {
        Ok(self.objects.borrow().keys().filter(|k| k.starts_with(prefix)).cloned().collect())
    }
}

fn transform(
    disk: &Disk,
    input: &str,
    output: &str,
    f: impl Fn(&[u8]) -> Result<Vec<u8>, SyncError>,
) -> Result<(), SyncError> {
    let contents = disk.read(input)?;
    let produced = f(&contents)?;
    disk.write(output, produced);
    Ok(())
}

/// Drives one invocation to its end, as the watch loop does, and returns it
/// with the actions performed.
fn drive(
    mut invocation: Invocation,
    disk: &Disk,
    store: &Store,
    codec: &AesEncryption,
) -> (Invocation, Vec<Action>) {
    let mut actions = vec![];
    while !invocation.is_finished() {
        let action = invocation.next_action();
        actions.push(action);
        invocation = match action {
            Action::Compress => {
                let outcome =
                    transform(disk, invocation.source(), invocation.compressed_path(), compress_file);
                invocation.record(outcome)
            }
            Action::Encrypt => {
                let outcome = transform(
                    disk,
                    invocation.compressed_path(),
                    invocation.encrypted_path(),
                    |contents| codec.encrypt_file(contents),
                );
                invocation.record(outcome)
            }
            Action::Upload => invocation.upload(store),
            Action::RemoveCompressed => {
                let outcome = disk.remove(invocation.compressed_path());
                invocation.record(outcome)
            }
            Action::RemoveEncrypted => {
                let outcome = disk.remove(invocation.encrypted_path());
                invocation.record(outcome)
            }
            Action::Finish => invocation,
        };
        assert!(actions.len() <= 5);
    }
    (invocation, actions)
}

fn begin(token: u64) -> Invocation {
    Invocation::begin("/watched/model.bin", "model.bin", "/scratch", "ai-models", token).unwrap()
}

#[test]
fn an_invocation_begins_with_its_names() {
    let invocation = begin(3);
    assert_eq!(invocation.source(), "/watched/model.bin");
    assert_eq!(invocation.compressed_path(), "/scratch/model.bin.3.gz");
    assert_eq!(invocation.encrypted_path(), "/scratch/model.bin.3.enc");
    assert_eq!(invocation.remote_key(), "ai-models/model.bin");
    assert_eq!(invocation.state(), PipelineState::Received);
    assert_eq!(invocation.next_action(), Action::Compress);
    assert!(!invocation.is_finished());
}

#[test]
fn an_invocation_is_refused_for_an_invalid_name() {
    for name in ["", ".", "..", "a/b", "a\\b"] {
        assert!(Invocation::begin("/watched/x", name, "/scratch", "ai-models", 1).is_none());
    }
}

#[test]
fn a_created_file_is_compressed_encrypted_uploaded_and_cleaned_up() {
    let disk = Disk::with("/watched/model.bin", &[1, 2, 3]);
    let store = Store::new(&disk, false);
    let codec = AesEncryption::new("the configured secret").unwrap();
    let (invocation, actions) = drive(begin(1), &disk, &store, &codec);
    assert_eq!(
        actions,
        vec![
            Action::Compress,
            Action::Encrypt,
            Action::Upload,
            Action::RemoveCompressed,
            Action::RemoveEncrypted
        ]
    );
    assert_eq!(invocation.state(), PipelineState::CleanedUp);
    assert_eq!(invocation.next_action(), Action::Finish);
    assert_eq!(disk.paths(), vec!["/watched/model.bin".to_string()]);
    assert_eq!(store.list_files(""), Ok(vec!["ai-models/model.bin".to_string()]));
}

#[test]
fn the_uploaded_artifact_gives_the_file_back() {
    let disk = Disk::with("/watched/model.bin", &[1, 2, 3]);
    let store = Store::new(&disk, false);
    let codec = AesEncryption::new("the configured secret").unwrap();
    drive(begin(1), &disk, &store, &codec);
    let artifact = store.objects.borrow().get("ai-models/model.bin").cloned().unwrap();
    let reader = AesEncryption::new("the configured secret").unwrap();
    let compressed = reader.decrypt_file(&artifact).unwrap();
    assert_eq!(decompress_file(&compressed), Ok(vec![1, 2, 3]));
}

#[test]
fn the_uploaded_artifact_does_not_open_under_another_secret() {
    let disk = Disk::with("/watched/model.bin", &[1, 2, 3]);
    let store = Store::new(&disk, false);
    let codec = AesEncryption::new("the configured secret").unwrap();
    drive(begin(1), &disk, &store, &codec);
    let artifact = store.objects.borrow().get("ai-models/model.bin").cloned().unwrap();
    let reader = AesEncryption::new("a different secret").unwrap();
    assert_eq!(reader.decrypt_file(&artifact), Err(SyncError::Authentication));
}

#[test]
fn a_failed_upload_is_contained_and_cleaned_up() {
    let disk = Disk::with("/watched/model.bin", &[1, 2, 3]);
    let failing = Store::new(&disk, true);
    let codec = AesEncryption::new("the configured secret").unwrap();
    let (invocation, actions) = drive(begin(1), &disk, &failing, &codec);
    assert_eq!(invocation.state(), PipelineState::Failed(Stage::Upload, SyncError::Backend));
    assert_eq!(
        actions,
        vec![
            Action::Compress,
            Action::Encrypt,
            Action::Upload,
            Action::RemoveCompressed,
            Action::RemoveEncrypted
        ]
    );
    assert_eq!(disk.paths(), vec!["/watched/model.bin".to_string()]);
    assert_eq!(failing.list_files(""), Ok(vec![]));
    // the loop goes on with the next event
    let store = Store::new(&disk, false);
    let (next, _) = drive(begin(2), &disk, &store, &codec);
    assert_eq!(next.state(), PipelineState::CleanedUp);
    assert_eq!(store.list_files("ai-models/"), Ok(vec!["ai-models/model.bin".to_string()]));
}

#[test]
fn a_failed_compression_is_cleaned_up() {
    let disk = Disk::with("/watched/other.bin", &[1, 2, 3]);
    let store = Store::new(&disk, false);
    let codec = AesEncryption::new("the configured secret").unwrap();
    let (invocation, actions) = drive(begin(1), &disk, &store, &codec);
    assert_eq!(invocation.state(), PipelineState::Failed(Stage::Compress, SyncError::Transform));
    assert_eq!(actions, vec![Action::Compress, Action::RemoveCompressed]);
    assert_eq!(disk.paths(), vec!["/watched/other.bin".to_string()]);
    assert_eq!(store.list_files(""), Ok(vec![]));
}

#[test]
fn a_failed_encryption_is_cleaned_up() {
    let progress = Progress::new().record(Ok(())).record(Err(SyncError::Transform));
    assert_eq!(progress.state, PipelineState::Failed(Stage::Encrypt, SyncError::Transform));
    assert_eq!(progress.next_action(), Action::RemoveCompressed);
    let progress = progress.record(Ok(()));
    assert_eq!(progress.next_action(), Action::RemoveEncrypted);
    let progress = progress.record(Err(SyncError::NotFound));
    assert!(progress.is_finished());
    assert_eq!(progress.state, PipelineState::Failed(Stage::Encrypt, SyncError::Transform));
    assert_eq!(progress.compressed, Scratch::Absent);
    assert_eq!(progress.encrypted, Scratch::Absent);
}

#[test]
fn a_removal_that_fails_is_a_cleanup_failure() {
    let disk = Disk::with("/watched/model.bin", &[1, 2, 3]);
    disk.undeletable.borrow_mut().push("/scratch/model.bin.1.gz".to_string());
    let store = Store::new(&disk, false);
    let codec = AesEncryption::new("the configured secret").unwrap();
    let (invocation, actions) = drive(begin(1), &disk, &store, &codec);
    assert_eq!(invocation.state(), PipelineState::Failed(Stage::Cleanup, SyncError::Transform));
    assert_eq!(actions.len(), 5);
    // the other artifact was removed all the same
    assert_eq!(
        disk.paths(),
        vec!["/scratch/model.bin.1.gz".to_string(), "/watched/model.bin".to_string()]
    );
    let progress = invocation.progress();
    assert_eq!(progress.compressed, Scratch::Stuck(SyncError::Transform));
    assert_eq!(progress.encrypted, Scratch::Absent);
}

#[test]
fn the_first_failure_is_the_one_reported() {
    let progress = Progress::new()
        .record(Ok(()))
        .record(Ok(()))
        .record(Err(SyncError::Backend))
        .record(Err(SyncError::Transform))
        .record(Err(SyncError::Config));
    assert!(progress.is_finished());
    assert_eq!(progress.state, PipelineState::Failed(Stage::Upload, SyncError::Backend));
    assert_eq!(progress.compressed, Scratch::Stuck(SyncError::Transform));
    assert_eq!(progress.encrypted, Scratch::Stuck(SyncError::Config));
}

#[test]
fn the_first_removal_that_failed_gives_the_cleanup_reason() {
    let progress = Progress::new()
        .record(Ok(()))
        .record(Ok(()))
        .record(Ok(()))
        .record(Err(SyncError::Transform))
        .record(Err(SyncError::Config));
    assert_eq!(progress.state, PipelineState::Failed(Stage::Cleanup, SyncError::Transform));
    let progress = Progress::new()
        .record(Ok(()))
        .record(Ok(()))
        .record(Ok(()))
        .record(Ok(()))
        .record(Err(SyncError::Config));
    assert_eq!(progress.state, PipelineState::Failed(Stage::Cleanup, SyncError::Config));
}

#[test]
fn the_states_follow_one_another() {
    let progress = Progress::new();
    assert_eq!(progress.state, PipelineState::Received);
    let progress = progress.record(Ok(()));
    assert_eq!(progress.state, PipelineState::Compressed);
    assert_eq!(progress.compressed, Scratch::Present);
    let progress = progress.record(Ok(()));
    assert_eq!(progress.state, PipelineState::Encrypted);
    assert_eq!(progress.encrypted, Scratch::Present);
    let progress = progress.record(Ok(()));
    assert_eq!(progress.state, PipelineState::Uploaded);
    let progress = progress.record(Ok(()));
    assert_eq!(progress.state, PipelineState::Uploaded);
    assert_eq!(progress.compressed, Scratch::Absent);
    let progress = progress.record(Ok(()));
    assert_eq!(progress.state, PipelineState::CleanedUp);
    assert_eq!(progress.encrypted, Scratch::Absent);
}

#[test]
fn a_finished_invocation_stays_as_it_is() {
    let mut progress = Progress::new();
    for _ in 0..5 {
        progress = progress.record(Ok(()));
    }
    assert!(progress.is_finished());
    assert_eq!(progress.record(Err(SyncError::Backend)), progress);
    assert_eq!(progress.record(Ok(())), progress);
}

#[test]
fn every_run_ends_within_five_actions_and_leaves_no_artifact_to_remove() {
    let outcomes = [Ok(()), Err(SyncError::Transform), Err(SyncError::NotFound)];
    let mut run = [0usize; 5];
    loop {
        let mut progress = Progress::new();
        for choice in run {
            progress = progress.record(outcomes[choice]);
        }
        assert!(progress.is_finished());
        assert_ne!(progress.compressed, Scratch::Present);
        assert_ne!(progress.encrypted, Scratch::Present);
        assert!(matches!(progress.state, PipelineState::CleanedUp | PipelineState::Failed(_, _)));
        let mut at = 0;
        while at < 5 && run[at] == 2 {
            run[at] = 0;
            at += 1;
        }
        if at == 5 {
            break;
        }
        run[at] += 1;
    }
}

#[test]
fn upload_does_nothing_where_it_is_not_due() {
    let disk = Disk::with("/watched/model.bin", &[1, 2, 3]);
    let store = Store::new(&disk, false);
    let invocation = begin(1).upload(&store);
    assert_eq!(invocation.state(), PipelineState::Received);
    assert_eq!(invocation.next_action(), Action::Compress);
    assert_eq!(store.list_files(""), Ok(vec![]));
}

#[test]
fn upload_hands_the_encrypted_path_and_the_remote_key_to_the_backend() {
    let disk = Disk::with("/scratch/model.bin.9.enc", &[42]);
    let store = Store::new(&disk, false);
    let invocation = begin(9).record(Ok(())).record(Ok(())).upload(&store);
    assert_eq!(invocation.state(), PipelineState::Uploaded);
    assert_eq!(store.objects.borrow().get("ai-models/model.bin"), Some(&vec![42]));
}

#[test]
fn a_compressed_then_encrypted_file_comes_back_whole() {
    let codec = AesEncryption::new("the configured secret").unwrap();
    let contents: Vec<u8> = (0..10_000u32).map(|i| (i % 7) as u8).collect();
    let artifact = codec.encrypt_file(&compress_file(&contents).unwrap()).unwrap();
    assert_eq!(decompress_file(&codec.decrypt_file(&artifact).unwrap()), Ok(contents));
}
