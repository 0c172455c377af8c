use rust_file_sync::config::create_default_config;

#[test]
fn default_config_has_the_documented_values() {
    let config = create_default_config();
    assert_eq!(config.remote_base_path, "ai-models");
    assert_eq!(config.google_drive.folder_id, "your-folder-id");
    assert_eq!(config.google_drive.credentials_file, "credentials.json");
    assert_eq!(config.s3.bucket, "your-bucket");
    assert_eq!(config.s3.region, "us-east-1");
    assert_eq!(config.s3.access_key, "your-access-key");
    assert_eq!(config.s3.secret_key, "your-secret-key");
    assert_eq!(config.encryption.key, "your-encryption-key");
}
