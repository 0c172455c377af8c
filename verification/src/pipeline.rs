//! The per-file pipeline: compress, encrypt, upload, clean up.
//!
//! The pipeline is a state machine. It names the next action; whoever
//! drives it performs the action on the file system and reports how it went,
//! and the machine moves on. Every path through it, failures included, ends
//! only after each scratch artifact that may exist has had its removal
//! attempted.

use crate::cloud::CloudProvider;
use crate::error::SyncError;
use crate::naming::compressed_extension;
use crate::naming::compressed_scratch_path;
use crate::naming::encrypted_extension;
use crate::naming::encrypted_scratch_path;
use crate::naming::remote_key;
use crate::naming::remote_key_of;
use crate::naming::scratch_path_of;
use crate::text::valid_file_name;
use vstd::prelude::*;
use vstd::string::*;

verus! {

/// The stages of the pipeline at which a failure can occur.
#[derive(Debug, Clone, Copy, PartialEq, Eq, Structural)]
pub enum Stage {
    /// Writing the compressed artifact.
    Compress,
    /// Writing the encrypted artifact.
    Encrypt,
    /// Storing the encrypted artifact remotely.
    Upload,
    /// Removing the scratch artifacts after a successful upload.
    Cleanup,
}

/// Where one file's invocation stands.
#[derive(Debug, Clone, Copy, PartialEq, Eq, Structural)]
pub enum PipelineState {
    /// The change was received; nothing has been done yet.
    Received,
    /// The compressed artifact is written.
    Compressed,
    /// The encrypted artifact is written.
    Encrypted,
    /// The encrypted artifact is stored remotely.
    Uploaded,
    /// The upload is done and both scratch artifacts are gone.
    CleanedUp,
    /// A stage failed, for the given reason.
    Failed(Stage, SyncError),
}

/// What is known of one scratch artifact.
#[derive(Debug, Clone, Copy, PartialEq, Eq, Structural)]
pub enum Scratch {
    /// It was never begun, or it is removed.
    Absent,
    /// It may exist, and its removal has not been attempted.
    Present,
    /// Its removal was attempted and failed for the given reason.
    Stuck(SyncError),
}

/// What the driver is asked to do next.
#[derive(Debug, Clone, Copy, PartialEq, Eq, Structural)]
pub enum Action {
    /// Compress the source file into the compressed scratch path.
    Compress,
    /// Encrypt the compressed artifact into the encrypted scratch path.
    Encrypt,
    /// Upload the encrypted artifact under the remote key.
    Upload,
    /// Remove the compressed artifact.
    RemoveCompressed,
    /// Remove the encrypted artifact.
    RemoveEncrypted,
    /// Nothing: the invocation is over.
    Finish,
}

/// The control state of an invocation: its state and its two scratch
/// artifacts.
#[derive(Debug, Clone, Copy, PartialEq, Eq, Structural)]
pub struct Progress {
    /// Where the invocation stands.
    pub state: PipelineState,
    /// The compressed scratch artifact.
    pub compressed: Scratch,
    /// The encrypted scratch artifact.
    pub encrypted: Scratch,
}

/// What a removal that ended with `outcome` leaves of the artifact: nothing
/// where it succeeded or found nothing to remove, a stuck artifact else.
pub open spec fn removal_result(outcome: Result<(), SyncError>) -> Scratch {
    match outcome {
        Ok(()) => Scratch::Absent,
        Err(SyncError::NotFound) => Scratch::Absent,
        Err(e) => Scratch::Stuck(e),
    }
}

impl Progress {
    /// The state every invocation starts in.
    pub open spec fn start() -> Progress {
        Progress {
            state: PipelineState::Received,
            compressed: Scratch::Absent,
            encrypted: Scratch::Absent,
        }
    }

    /// The states that an invocation can be in.
    pub open spec fn wf(self) -> bool {
        match self.state {
            PipelineState::Received => self.compressed == Scratch::Absent && self.encrypted
                == Scratch::Absent,
            PipelineState::Compressed => self.compressed == Scratch::Present && self.encrypted
                == Scratch::Absent,
            PipelineState::Encrypted => self.compressed == Scratch::Present && self.encrypted
                == Scratch::Present,
            PipelineState::Uploaded => self.encrypted == Scratch::Present,
            PipelineState::CleanedUp => self.compressed == Scratch::Absent && self.encrypted
                == Scratch::Absent,
            PipelineState::Failed(Stage::Compress, _) => self.encrypted == Scratch::Absent,
            PipelineState::Failed(Stage::Cleanup, _) => {
                &&& self.compressed != Scratch::Present
                &&& self.encrypted != Scratch::Present
                &&& self.stuck()
            },
            PipelineState::Failed(_, _) => true,
        }
    }

    /// True when the removal of a scratch artifact has failed.
    pub open spec fn stuck(self) -> bool {
        self.compressed is Stuck || self.encrypted is Stuck
    }

    /// True when a scratch artifact may still exist.
    pub open spec fn scratch_left(self) -> bool {
        self.compressed != Scratch::Absent || self.encrypted != Scratch::Absent
    }

    /// The action that is due.
    pub open spec fn pending(self) -> Action {
        match self.state {
            PipelineState::Received => Action::Compress,
            PipelineState::Compressed => Action::Encrypt,
            PipelineState::Encrypted => Action::Upload,
            PipelineState::CleanedUp => Action::Finish,
            _ => if self.compressed == Scratch::Present {
                Action::RemoveCompressed
            } else if self.encrypted == Scratch::Present {
                Action::RemoveEncrypted
            } else {
                Action::Finish
            },
        }
    }

    /// True when the invocation is over.
    pub open spec fn is_terminal(self) -> bool {
        self.pending() == Action::Finish
    }

    /// After the last removal of a successful run: cleaned up where both
    /// artifacts are gone, failed at cleanup where one is stuck. The first
    /// removal that failed gives the reason.
    pub open spec fn settled(self) -> Progress {
        if self.state == PipelineState::Uploaded && self.compressed != Scratch::Present
            && self.encrypted != Scratch::Present {
            match (self.compressed, self.encrypted) {
                (Scratch::Stuck(e), _) => Progress {
                    state: PipelineState::Failed(Stage::Cleanup, e),
                    ..self
                },
                (_, Scratch::Stuck(e)) => Progress {
                    state: PipelineState::Failed(Stage::Cleanup, e),
                    ..self
                },
                _ => Progress { state: PipelineState::CleanedUp, ..self },
            }
        } else {
            self
        }
    }

    /// The state after the pending action ended with `outcome`.
    ///
    /// A stage that succeeds leads to the next state, one that fails to
    /// `Failed` with that stage and reason. An artifact counts as present
    /// from the moment its stage was started, whether or not the stage
    /// succeeded. An invocation that is over stays as it is.
    pub open spec fn after(self, outcome: Result<(), SyncError>) -> Progress {
        match self.pending() {
            Action::Compress => Progress {
                state: match outcome {
                    Ok(()) => PipelineState::Compressed,
                    Err(e) => PipelineState::Failed(Stage::Compress, e),
                },
                compressed: Scratch::Present,
                ..self
            },
            Action::Encrypt => Progress {
                state: match outcome {
                    Ok(()) => PipelineState::Encrypted,
                    Err(e) => PipelineState::Failed(Stage::Encrypt, e),
                },
                encrypted: Scratch::Present,
                ..self
            },
            Action::Upload => Progress {
                state: match outcome {
                    Ok(()) => PipelineState::Uploaded,
                    Err(e) => PipelineState::Failed(Stage::Upload, e),
                },
                ..self
            },
            Action::RemoveCompressed => Progress {
                compressed: removal_result(outcome),
                ..self
            }.settled(),
            Action::RemoveEncrypted => Progress {
                encrypted: removal_result(outcome),
                ..self
            }.settled(),
            Action::Finish => self,
        }
    }

    /// An upper bound on the actions that are still due.
    pub open spec fn steps_left(self) -> nat {
        match self.state {
            PipelineState::Received => 5,
            PipelineState::Compressed => 4,
            PipelineState::Encrypted => 3,
            PipelineState::CleanedUp => 0,
            _ => (if self.compressed == Scratch::Present {
                1nat
            } else {
                0nat
            }) + (if self.encrypted == Scratch::Present {
                1nat
            } else {
                0nat
            }),
        }
    }

    /// The state after a run of actions ended with the given outcomes, in
    /// order.
    pub open spec fn run(self, outcomes: Seq<Result<(), SyncError>>) -> Progress
        decreases outcomes.len(),
    {
        if outcomes.len() == 0 {
            self
        } else {
            self.run(outcomes.drop_last()).after(outcomes.last())
        }
    }

    /// True when no removal in a run of outcomes failed.
    pub open spec fn removals_succeed(self, outcomes: Seq<Result<(), SyncError>>) -> bool
        decreases outcomes.len(),
    {
        if outcomes.len() == 0 {
            true
        } else {
            let before = self.run(outcomes.drop_last());
            &&& self.removals_succeed(outcomes.drop_last())
            &&& (before.pending() == Action::RemoveCompressed || before.pending()
                == Action::RemoveEncrypted) ==> removal_result(outcomes.last())
                == Scratch::Absent
        }
    }
}

/// One step keeps an invocation among the states it can be in, brings it
/// strictly closer to its end, and never goes back: an invocation is over
/// exactly where no step is left, and at most five are.
pub proof fn lemma_step(p: Progress, outcome: Result<(), SyncError>)
    requires
        p.wf(),
    ensures
        p.after(outcome).wf(),
        p.steps_left() <= 5,
        p.is_terminal() <==> p.steps_left() == 0,
        p.is_terminal() ==> p.after(outcome) == p,
        !p.is_terminal() ==> p.after(outcome).steps_left() < p.steps_left(),
        !p.stuck() && !((p.pending() == Action::RemoveCompressed || p.pending()
            == Action::RemoveEncrypted) && removal_result(outcome) != Scratch::Absent)
            ==> !p.after(outcome).stuck(),
{
}

/// The first failure is final: once a stage before cleanup has failed, the
/// state reports that stage and reason to the end.
pub proof fn lemma_failure_is_kept(p: Progress, outcome: Result<(), SyncError>)
    requires
        p.wf(),
        p.state is Failed,
    ensures
        p.after(outcome).state == p.state,
{
}

/// Cleanup on every exit: an invocation that is over, however it ended,
/// holds no scratch artifact whose removal was not attempted; and where no
/// removal failed, no scratch artifact is left at all.
pub proof fn lemma_exit_leaves_no_scratch(p: Progress)
    requires
        p.wf(),
        p.is_terminal(),
    ensures
        p.compressed != Scratch::Present,
        p.encrypted != Scratch::Present,
        !p.stuck() ==> !p.scratch_left(),
        p.state is CleanedUp || p.state is Failed,
        p.state is CleanedUp ==> !p.scratch_left(),
{
}

/// The same, of whole runs: from the start, whatever the outcomes, the
/// invocation stays well-formed and is over after five actions at most;
/// once over, every artifact has had its removal attempted, and where no
/// removal failed none is left.
pub proof fn lemma_run_cleans_up(outcomes: Seq<Result<(), SyncError>>)
    ensures
        Progress::start().run(outcomes).wf(),
        Progress::start().run(outcomes).steps_left() + outcomes.len() <= 5
            || Progress::start().run(outcomes).is_terminal(),
        Progress::start().run(outcomes).is_terminal() ==> {
            &&& Progress::start().run(outcomes).compressed != Scratch::Present
            &&& Progress::start().run(outcomes).encrypted != Scratch::Present
        },
        Progress::start().removals_succeed(outcomes) ==> !Progress::start().run(outcomes).stuck(),
        Progress::start().run(outcomes).is_terminal() && Progress::start().removals_succeed(
            outcomes,
        ) ==> !Progress::start().run(outcomes).scratch_left(),
    decreases outcomes.len(),
{
    if outcomes.len() > 0 {
        lemma_run_cleans_up(outcomes.drop_last());
        let before = Progress::start().run(outcomes.drop_last());
        lemma_step(before, outcomes.last());
    }
    let end = Progress::start().run(outcomes);
    if end.wf() && end.is_terminal() {
        lemma_exit_leaves_no_scratch(end);
    }
}

impl Progress {
    /// The progress of an invocation that has just begun.
    pub fn new() -> (p: Progress)
        ensures
            p == Progress::start(),
    {
        Progress {
            state: PipelineState::Received,
            compressed: Scratch::Absent,
            encrypted: Scratch::Absent,
        }
    }

    /// Names the action that is due.
    pub fn next_action(&self) -> (action: Action)
        ensures
            action == self.pending(),
    {
        match self.state {
            PipelineState::Received => Action::Compress,
            PipelineState::Compressed => Action::Encrypt,
            PipelineState::Encrypted => Action::Upload,
            PipelineState::CleanedUp => Action::Finish,
            _ => {
                if self.compressed == Scratch::Present {
                    Action::RemoveCompressed
                } else if self.encrypted == Scratch::Present {
                    Action::RemoveEncrypted
                } else {
                    Action::Finish
                }
            },
        }
    }

    /// Tells whether the invocation is over.
    pub fn is_finished(&self) -> (finished: bool)
        ensures
            finished == self.is_terminal(),
    {
        self.next_action() == Action::Finish
    }

    /// Closes a successful run once the last removal is reported.
    fn settle(self) -> (p: Progress)
        ensures
            p == self.settled(),
    {
        if self.state == PipelineState::Uploaded && self.compressed != Scratch::Present
            && self.encrypted != Scratch::Present {
            let state = match (self.compressed, self.encrypted) {
                (Scratch::Stuck(e), _) => PipelineState::Failed(Stage::Cleanup, e),
                (_, Scratch::Stuck(e)) => PipelineState::Failed(Stage::Cleanup, e),
                _ => PipelineState::CleanedUp,
            };
            Progress { state, compressed: self.compressed, encrypted: self.encrypted }
        } else {
            self
        }
    }

    /// Records how the pending action ended and moves on.
    pub fn record(self, outcome: Result<(), SyncError>) -> (p: Progress)
        ensures
            p == self.after(outcome),
    {
        match self.next_action() {
            Action::Compress => Progress {
                state: match outcome {
                    Ok(()) => PipelineState::Compressed,
                    Err(e) => PipelineState::Failed(Stage::Compress, e),
                },
                compressed: Scratch::Present,
                encrypted: self.encrypted,
            },
            Action::Encrypt => Progress {
                state: match outcome {
                    Ok(()) => PipelineState::Encrypted,
                    Err(e) => PipelineState::Failed(Stage::Encrypt, e),
                },
                compressed: self.compressed,
                encrypted: Scratch::Present,
            },
            Action::Upload => Progress {
                state: match outcome {
                    Ok(()) => PipelineState::Uploaded,
                    Err(e) => PipelineState::Failed(Stage::Upload, e),
                },
                compressed: self.compressed,
                encrypted: self.encrypted,
            },
            Action::RemoveCompressed => Progress {
                state: self.state,
                compressed: removal(outcome),
                encrypted: self.encrypted,
            }.settle(),
            Action::RemoveEncrypted => Progress {
                state: self.state,
                compressed: self.compressed,
                encrypted: removal(outcome),
            }.settle(),
            Action::Finish => self,
        }
    }
}

/// What a removal leaves of its artifact.
fn removal(outcome: Result<(), SyncError>) -> (scratch: Scratch)
    ensures
        scratch == removal_result(outcome),
{
    match outcome {
        Ok(()) => Scratch::Absent,
        Err(SyncError::NotFound) => Scratch::Absent,
        Err(e) => Scratch::Stuck(e),
    }
}

/// One file's trip through the pipeline: the names it works with, and how
/// far it has come.
#[derive(Debug)]
pub struct Invocation {
    source: String,
    compressed_path: String,
    encrypted_path: String,
    remote_key: String,
    progress: Progress,
}

/// What an invocation stands for.
pub struct InvocationView {
    /// Path of the file being processed.
    pub source: Seq<char>,
    /// Path of the compressed scratch artifact.
    pub compressed_path: Seq<char>,
    /// Path of the encrypted scratch artifact.
    pub encrypted_path: Seq<char>,
    /// Key under which the encrypted artifact is stored remotely.
    pub remote_key: Seq<char>,
    /// How far the invocation has come.
    pub progress: Progress,
}

impl View for Invocation {
    type V = InvocationView;

    closed spec fn view(&self) -> InvocationView {
        InvocationView {
            source: self.source@,
            compressed_path: self.compressed_path@,
            encrypted_path: self.encrypted_path@,
            remote_key: self.remote_key@,
            progress: self.progress,
        }
    }
}

impl Invocation {
    #[verifier::type_invariant]
    spec fn well_formed(self) -> bool {
        self.progress.wf()
    }

    /// Begins the invocation for one changed file.
    ///
    /// `file_name` is the base name of `source`. It is refused, and `None`
    /// returned, exactly where it is not a valid file name. Otherwise the
    /// invocation starts in `Received`, with the remote key
    /// `{remote_base_path}/{file_name}` and two scratch paths inside
    /// `scratch_dir` that carry `token`, which the caller gives a different
    /// value for each invocation.
    pub fn begin(
        source: &str,
        file_name: &str,
        scratch_dir: &str,
        remote_base_path: &str,
        token: u64,
    ) -> (r: Option<Invocation>)
        ensures
            match r {
                Some(invocation) => {
                    &&& valid_file_name(file_name@)
                    &&& invocation@.source == source@
                    &&& invocation@.remote_key == remote_key_of(remote_base_path@, file_name@)
                    &&& invocation@.compressed_path == scratch_path_of(
                        scratch_dir@,
                        file_name@,
                        token as nat,
                        compressed_extension(),
                    )
                    &&& invocation@.encrypted_path == scratch_path_of(
                        scratch_dir@,
                        file_name@,
                        token as nat,
                        encrypted_extension(),
                    )
                    &&& invocation@.progress == Progress::start()
                },
                None => !valid_file_name(file_name@),
            },
    {
        match remote_key(remote_base_path, file_name) {
            Some(key) => Some(
                Invocation {
                    source: String::from_str(source),
                    compressed_path: compressed_scratch_path(scratch_dir, file_name, token),
                    encrypted_path: encrypted_scratch_path(scratch_dir, file_name, token),
                    remote_key: key,
                    progress: Progress::new(),
                },
            ),
            None => None,
        }
    }

    /// Path of the file being processed.
    pub fn source(&self) -> (path: &str)
        ensures
            path@ == self@.source,
    {
        self.source.as_str()
    }

    /// Path of the compressed scratch artifact.
    pub fn compressed_path(&self) -> (path: &str)
        ensures
            path@ == self@.compressed_path,
    {
        self.compressed_path.as_str()
    }

    /// Path of the encrypted scratch artifact.
    pub fn encrypted_path(&self) -> (path: &str)
        ensures
            path@ == self@.encrypted_path,
    {
        self.encrypted_path.as_str()
    }

    /// Key under which the encrypted artifact is stored remotely.
    pub fn remote_key(&self) -> (key: &str)
        ensures
            key@ == self@.remote_key,
    {
        self.remote_key.as_str()
    }

    /// The state of the invocation.
    pub fn state(&self) -> (state: PipelineState)
        ensures
            state == self@.progress.state,
    {
        self.progress.state
    }

    /// How far the invocation has come.
    pub fn progress(&self) -> (progress: Progress)
        ensures
            progress == self@.progress,
            progress.wf(),
    {
        proof {
            use_type_invariant(self);
        }
        self.progress
    }

    /// Names the action that is due.
    pub fn next_action(&self) -> (action: Action)
        ensures
            action == self@.progress.pending(),
    {
        self.progress.next_action()
    }

    /// Tells whether the invocation is over. Once it is, no scratch
    /// artifact is left whose removal was not attempted.
    pub fn is_finished(&self) -> (finished: bool)
        ensures
            finished == self@.progress.is_terminal(),
            finished ==> self@.progress.compressed != Scratch::Present && self@.progress.encrypted
                != Scratch::Present,
    {
        proof {
            use_type_invariant(self);
        }
        self.progress.is_finished()
    }

    /// Records how the pending action ended and moves on. The names stay.
    pub fn record(self, outcome: Result<(), SyncError>) -> (next: Invocation)
        ensures
            next@ == (InvocationView { progress: self@.progress.after(outcome), ..self@ }),
    {
        proof {
            use_type_invariant(&self);
            lemma_step(self.progress, outcome);
        }
        Invocation {
            source: self.source,
            compressed_path: self.compressed_path,
            encrypted_path: self.encrypted_path,
            remote_key: self.remote_key,
            progress: self.progress.record(outcome),
        }
    }

    /// Performs the upload where it is due: hands the encrypted scratch path
    /// and the remote key to the backend and records what it reports. Where
    /// another action is due, nothing is done.
    pub fn upload<P: CloudProvider>(self, provider: &P) -> (next: Invocation)
        ensures
            self@.progress.pending() != Action::Upload ==> next@ == self@,
            self@.progress.pending() == Action::Upload ==> {
                ||| next@ == (InvocationView {
                    progress: self@.progress.after(Ok(())),
                    ..self@
                })
                ||| next@ == (InvocationView {
                    progress: self@.progress.after(Err(SyncError::Backend)),
                    ..self@
                })
            },
    {
        if self.next_action() == Action::Upload {
            let outcome = provider.upload_file(
                self.encrypted_path.as_str(),
                self.remote_key.as_str(),
            );
            self.record(outcome)
        } else {
            self
        }
    }
}

} // verus!
