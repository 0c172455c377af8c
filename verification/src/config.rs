//! Configuration values consumed by the pipeline.

use vstd::prelude::*;
use vstd::string::*;

verus! {

/// Settings of the Google Drive backend.
#[derive(Debug)]
pub struct GoogleDriveConfig {
    /// Identifier of the destination folder.
    pub folder_id: String,
    /// Path of the OAuth credentials file.
    pub credentials_file: String,
}

/// Settings of the S3 backend.
#[derive(Debug)]
pub struct S3Config {
    /// Bucket name.
    pub bucket: String,
    /// Region name, such as `us-east-1`.
    pub region: String,
    /// Access key id.
    pub access_key: String,
    /// Secret access key.
    pub secret_key: String,
}

/// Key material of the encryption codec.
#[derive(Debug)]
pub struct EncryptionConfig {
    /// The configured secret: 64 hexadecimal digits, or any other text.
    pub key: String,
}

/// Everything the pipeline reads from its configuration.
#[derive(Debug)]
pub struct AppConfig {
    /// Prefix of every remote object key.
    pub remote_base_path: String,
    /// Google Drive backend settings.
    pub google_drive: GoogleDriveConfig,
    /// S3 backend settings.
    pub s3: S3Config,
    /// Encryption settings.
    pub encryption: EncryptionConfig,
}

/// The configuration that a fresh installation starts from.
pub open spec fn default_config_fields(c: AppConfig) -> bool {
    &&& c.remote_base_path@ == "ai-models"@
    &&& c.google_drive.folder_id@ == "your-folder-id"@
    &&& c.google_drive.credentials_file@ == "credentials.json"@
    &&& c.s3.bucket@ == "your-bucket"@
    &&& c.s3.region@ == "us-east-1"@
    &&& c.s3.access_key@ == "your-access-key"@
    &&& c.s3.secret_key@ == "your-secret-key"@
    &&& c.encryption.key@ == "your-encryption-key"@
}

/// Builds the default configuration: placeholder credentials for both
/// backends, the `ai-models` remote prefix and a placeholder secret.
pub fn create_default_config() -> (config: AppConfig)
    ensures
        default_config_fields(config),
{
    AppConfig {
        remote_base_path: String::from_str("ai-models"),
        google_drive: GoogleDriveConfig {
            folder_id: String::from_str("your-folder-id"),
            credentials_file: String::from_str("credentials.json"),
        },
        s3: S3Config {
            bucket: String::from_str("your-bucket"),
            region: String::from_str("us-east-1"),
            access_key: String::from_str("your-access-key"),
            secret_key: String::from_str("your-secret-key"),
        },
        encryption: EncryptionConfig { key: String::from_str("your-encryption-key") },
    }
}

} // verus!
