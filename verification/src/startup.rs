//! What has to succeed before watching begins: the backend is selected and
//! its settings are read, and the encryption key is derived. Any failure
//! here is final, and nothing is watched.

use crate::cloud::backend_named;
use crate::cloud::region_named;
use crate::cloud::BackendKind;
use crate::cloud::GoogleDriveProvider;
use crate::cloud::S3Provider;
use crate::config::AppConfig;
use crate::encryption::AesEncryption;
use crate::error::SyncError;
use vstd::prelude::*;
use vstd::string::*;
use vstd::utf8::encode_utf8;

verus! {

/// The settings of the backend that was selected.
#[derive(Debug)]
pub enum ProviderSettings {
    /// An S3 bucket.
    S3(S3Provider),
    /// A Google Drive folder.
    GoogleDrive(GoogleDriveProvider),
}

/// What a run of the service works with.
pub struct Session {
    /// The selected backend's settings.
    pub provider: ProviderSettings,
    /// The encryption codec.
    pub encryption: AesEncryption,
}

/// Why the service cannot start, if it cannot: the backend name selects no
/// backend, or the S3 backend is selected and its region is not supported.
/// Both are `Config` errors. Every secret yields a key, so the encryption
/// settings never stop the start.
pub open spec fn startup_failure(provider_name: Seq<char>, config: AppConfig) -> Option<SyncError> {
    match backend_named(provider_name) {
        None => Some(SyncError::Config),
        Some(kind) => if kind == BackendKind::S3 && region_named(config.s3.region@) is None {
            Some(SyncError::Config)
        } else {
            None
        },
    }
}

/// True when `settings` are those that `config` holds for the backend of
/// the given kind.
pub open spec fn settings_match(settings: ProviderSettings, kind: BackendKind, config: AppConfig) -> bool {
    match settings {
        ProviderSettings::S3(provider) => {
            &&& kind == BackendKind::S3
            &&& region_named(config.s3.region@) == Some(provider.region)
            &&& provider.bucket@ == config.s3.bucket@
            &&& provider.access_key@ == config.s3.access_key@
            &&& provider.secret_key@ == config.s3.secret_key@
        },
        ProviderSettings::GoogleDrive(provider) => {
            &&& kind == BackendKind::GoogleDrive
            &&& provider.folder_id@ == config.google_drive.folder_id@
        },
    }
}

/// Selects the backend by name, reads its settings from the configuration
/// and derives the encryption key. Only the selected backend's block is
/// looked at. Fails exactly where `startup_failure` names a reason, with
/// that reason.
pub fn prepare(provider_name: &str, config: &AppConfig) -> (r: Result<Session, SyncError>)
    ensures
        match r {
            Ok(session) => {
                &&& startup_failure(provider_name@, *config) is None
                &&& settings_match(session.provider, backend_named(provider_name@)->0, *config)
                &&& session.encryption.derived_from(encode_utf8(config.encryption.key@))
            },
            Err(e) => startup_failure(provider_name@, *config) == Some(e),
        },
{
    let kind = match BackendKind::from_name(provider_name) {
        Ok(kind) => kind,
        Err(e) => {
            return Err(e);
        },
    };
    let provider = match kind {
        BackendKind::S3 => match S3Provider::new(&config.s3) {
            Ok(provider) => ProviderSettings::S3(provider),
            Err(e) => {
                return Err(e);
            },
        },
        BackendKind::GoogleDrive => match GoogleDriveProvider::new(&config.google_drive) {
            Ok(provider) => ProviderSettings::GoogleDrive(provider),
            Err(e) => {
                return Err(e);
            },
        },
    };
    match AesEncryption::new(config.encryption.key.as_str()) {
        Ok(encryption) => Ok(Session { provider, encryption }),
        Err(e) => Err(e),
    }
}

} // verus!
