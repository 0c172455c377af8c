//! The storage-backend capability and the two backends' settings.

use crate::config::GoogleDriveConfig;
use crate::config::S3Config;
use crate::error::SyncError;
use crate::text::same_text;
use vstd::prelude::*;
use vstd::string::*;

verus! {

/// A remote object store. Every backend offers these four operations, and
/// the pipeline uses nothing else of a backend.
///
/// The clauses bind whoever implements the trait: an operation reports
/// nothing but the failures listed for it, and a listing holds only keys
/// that begin with the prefix asked for.
pub trait CloudProvider {
    /// Stores the file at `local_path` under `remote_path`, replacing what
    /// was stored there. Fails with `Backend`.
    fn upload_file(&self, local_path: &str, remote_path: &str) -> (r: Result<(), SyncError>)
        ensures
            r matches Err(e) ==> e == SyncError::Backend,
    ;

    /// Fetches what is stored under `remote_path` into the file at
    /// `local_path`. Fails with `NotFound` where the key does not exist,
    /// with `Backend` otherwise.
    fn download_file(&self, remote_path: &str, local_path: &str) -> (r: Result<(), SyncError>)
        ensures
            r matches Err(e) ==> e == SyncError::NotFound || e == SyncError::Backend,
    ;

    /// Removes what is stored under `remote_path`. Fails with `NotFound`
    /// where the key does not exist, with `Backend` otherwise.
    fn delete_file(&self, remote_path: &str) -> (r: Result<(), SyncError>)
        ensures
            r matches Err(e) ==> e == SyncError::NotFound || e == SyncError::Backend,
    ;

    /// Lists the keys that begin with `prefix`; none is no error. Fails
    /// with `Backend`.
    fn list_files(&self, prefix: &str) -> (r: Result<Vec<String>, SyncError>)
        ensures
            match r {
                Ok(keys) => forall|i: int|
                    0 <= i < keys@.len() ==> prefix@.is_prefix_of(#[trigger] keys@[i]@),
                Err(e) => e == SyncError::Backend,
            },
    ;
}

/// The backends that can be selected at startup.
#[derive(Debug, Clone, Copy, PartialEq, Eq, Structural)]
pub enum BackendKind {
    /// An S3-compatible object store.
    S3,
    /// Google Drive.
    GoogleDrive,
}

/// The backend that a name selects: `s3` or `gdrive`.
pub open spec fn backend_named(name: Seq<char>) -> Option<BackendKind> {
    if name == "s3"@ {
        Some(BackendKind::S3)
    } else if name == "gdrive"@ {
        Some(BackendKind::GoogleDrive)
    } else {
        None
    }
}

impl BackendKind {
    /// Selects a backend by name. Any name but `s3` and `gdrive` is a
    /// `Config` error.
    pub fn from_name(name: &str) -> (r: Result<BackendKind, SyncError>)
        ensures
            match r {
                Ok(kind) => backend_named(name@) == Some(kind),
                Err(e) => backend_named(name@) is None && e == SyncError::Config,
            },
    {
        if same_text(name, "s3") {
            Ok(BackendKind::S3)
        } else if same_text(name, "gdrive") {
            Ok(BackendKind::GoogleDrive)
        } else {
            Err(SyncError::Config)
        }
    }
}

/// The regions in which an S3 backend can be addressed.
#[derive(Debug, Clone, Copy, PartialEq, Eq, Structural)]
pub enum Region {
    UsEast1,
    UsEast2,
    UsWest1,
    UsWest2,
    ApNortheast1,
    ApNortheast2,
    ApSouth1,
    ApSoutheast1,
    ApSoutheast2,
    CaCentral1,
    EuCentral1,
    EuWest1,
    EuWest2,
    EuWest3,
    SaEast1,
}

/// The region that a name stands for, `None` for a name that is none of the
/// fifteen supported ones.
pub open spec fn region_named(name: Seq<char>) -> Option<Region> {
    if name == "us-east-1"@ {
        Some(Region::UsEast1)
    } else if name == "us-east-2"@ {
        Some(Region::UsEast2)
    } else if name == "us-west-1"@ {
        Some(Region::UsWest1)
    } else if name == "us-west-2"@ {
        Some(Region::UsWest2)
    } else if name == "ap-northeast-1"@ {
        Some(Region::ApNortheast1)
    } else if name == "ap-northeast-2"@ {
        Some(Region::ApNortheast2)
    } else if name == "ap-south-1"@ {
        Some(Region::ApSouth1)
    } else if name == "ap-southeast-1"@ {
        Some(Region::ApSoutheast1)
    } else if name == "ap-southeast-2"@ {
        Some(Region::ApSoutheast2)
    } else if name == "ca-central-1"@ {
        Some(Region::CaCentral1)
    } else if name == "eu-central-1"@ {
        Some(Region::EuCentral1)
    } else if name == "eu-west-1"@ {
        Some(Region::EuWest1)
    } else if name == "eu-west-2"@ {
        Some(Region::EuWest2)
    } else if name == "eu-west-3"@ {
        Some(Region::EuWest3)
    } else if name == "sa-east-1"@ {
        Some(Region::SaEast1)
    } else {
        None
    }
}

impl Region {
    /// Reads a region name. A name that is not supported is a `Config`
    /// error.
    pub fn from_str(s: &str) -> (r: Result<Region, SyncError>)
        ensures
            match r {
                Ok(region) => region_named(s@) == Some(region),
                Err(e) => region_named(s@) is None && e == SyncError::Config,
            },
    {
        if same_text(s, "us-east-1") {
            Ok(Region::UsEast1)
        } else if same_text(s, "us-east-2") {
            Ok(Region::UsEast2)
        } else if same_text(s, "us-west-1") {
            Ok(Region::UsWest1)
        } else if same_text(s, "us-west-2") {
            Ok(Region::UsWest2)
        } else if same_text(s, "ap-northeast-1") {
            Ok(Region::ApNortheast1)
        } else if same_text(s, "ap-northeast-2") {
            Ok(Region::ApNortheast2)
        } else if same_text(s, "ap-south-1") {
            Ok(Region::ApSouth1)
        } else if same_text(s, "ap-southeast-1") {
            Ok(Region::ApSoutheast1)
        } else if same_text(s, "ap-southeast-2") {
            Ok(Region::ApSoutheast2)
        } else if same_text(s, "ca-central-1") {
            Ok(Region::CaCentral1)
        } else if same_text(s, "eu-central-1") {
            Ok(Region::EuCentral1)
        } else if same_text(s, "eu-west-1") {
            Ok(Region::EuWest1)
        } else if same_text(s, "eu-west-2") {
            Ok(Region::EuWest2)
        } else if same_text(s, "eu-west-3") {
            Ok(Region::EuWest3)
        } else if same_text(s, "sa-east-1") {
            Ok(Region::SaEast1)
        } else {
            Err(SyncError::Config)
        }
    }
}

/// What addresses an S3 bucket: the bucket, its region and the static
/// credentials. The network client is made from these.
#[derive(Debug)]
pub struct S3Provider {
    /// Bucket name.
    pub bucket: String,
    /// Region of the bucket.
    pub region: Region,
    /// Access key id.
    pub access_key: String,
    /// Secret access key.
    pub secret_key: String,
}

impl S3Provider {
    /// Reads the S3 settings. Fails with a `Config` error exactly where the
    /// region name is not supported; everything else is taken as it stands.
    pub fn new(config: &S3Config) -> (r: Result<S3Provider, SyncError>)
        ensures
            match r {
                Ok(provider) => {
                    &&& region_named(config.region@) == Some(provider.region)
                    &&& provider.bucket@ == config.bucket@
                    &&& provider.access_key@ == config.access_key@
                    &&& provider.secret_key@ == config.secret_key@
                },
                Err(e) => region_named(config.region@) is None && e == SyncError::Config,
            },
    {
        match Region::from_str(config.region.as_str()) {
            Ok(region) => Ok(
                S3Provider {
                    bucket: config.bucket.clone(),
                    region,
                    access_key: config.access_key.clone(),
                    secret_key: config.secret_key.clone(),
                },
            ),
            Err(e) => Err(e),
        }
    }
}

/// What addresses a Google Drive folder.
#[derive(Debug)]
pub struct GoogleDriveProvider {
    /// Identifier of the destination folder.
    pub folder_id: String,
}

impl GoogleDriveProvider {
    /// Reads the Google Drive settings. Always succeeds.
    pub fn new(config: &GoogleDriveConfig) -> (r: Result<GoogleDriveProvider, SyncError>)
        ensures
            r matches Ok(provider) && provider.folder_id@ == config.folder_id@,
    {
        Ok(GoogleDriveProvider { folder_id: config.folder_id.clone() })
    }
}

} // verus!
