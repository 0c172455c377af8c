use rust_file_sync::naming::compressed_scratch_path;
use rust_file_sync::naming::encrypted_scratch_path;
use rust_file_sync::naming::next_token;
use rust_file_sync::naming::remote_key;
use rust_file_sync::text::append_decimal;
use rust_file_sync::text::contains_separator;
use rust_file_sync::text::is_valid_file_name;
use rust_file_sync::text::same_bytes;
use rust_file_sync::text::same_text;

#[test]
fn remote_key_of_model_bin() {
    assert_eq!(remote_key("ai-models", "model.bin"), Some("ai-models/model.bin".to_string()));
}

#[test]
fn remote_key_keeps_the_name_verbatim() {
    assert_eq!(remote_key("", "a"), Some("/a".to_string()));
    assert_eq!(remote_key("base/", "x y.tar.gz"), Some("base//x y.tar.gz".to_string()));
    assert_eq!(remote_key("b", "...."), Some("b/....".to_string()));
    assert_eq!(remote_key("b", "naïve.bin"), Some("b/naïve.bin".to_string()));
}

#[test]
fn remote_key_refuses_names_that_could_leave_the_prefix() {
    for name in ["", ".", "..", "a/b", "/", "../x", "a\\b", "dir/", "\\"] {
        assert_eq!(remote_key("ai-models", name), None);
    }
}

#[test]
fn valid_file_names() {
    assert!(is_valid_file_name("model.bin"));
    assert!(is_valid_file_name("..."));
    assert!(is_valid_file_name(".hidden"));
    assert!(!is_valid_file_name(""));
    assert!(!is_valid_file_name("."));
    assert!(!is_valid_file_name(".."));
    assert!(!is_valid_file_name("a/b"));
    assert!(!is_valid_file_name("a\\b"));
}

#[test]
fn separators_are_found_anywhere() {
    assert!(contains_separator("/a"));
    assert!(contains_separator("a/"));
    assert!(contains_separator("é\\é"));
    assert!(!contains_separator(""));
    assert!(!contains_separator("plain.txt"));
}

#[test]
fn texts_are_compared_by_content() {
    assert!(same_text("", ""));
    assert!(same_text("abc", "abc"));
    assert!(!same_text("abc", "abd"));
    assert!(!same_text("abc", "ab"));
    assert!(same_bytes(&[1, 2], &[1, 2]));
    assert!(!same_bytes(&[1, 2], &[2, 1]));
    assert!(!same_bytes(&[], &[0]));
}

#[test]
fn decimal_numerals() {
    for (n, text) in [
        (0u64, "0"),
        (7, "7"),
        (10, "10"),
        (42, "42"),
        (1000, "1000"),
        (u64::MAX, "18446744073709551615"),
    ] {
        let mut out = String::from("n=");
        append_decimal(&mut out, n);
        assert_eq!(out, format!("n={}", text));
    }
}

#[test]
fn scratch_paths_carry_name_token_and_extension() {
    assert_eq!(compressed_scratch_path("/tmp", "model.bin", 7), "/tmp/model.bin.7.gz");
    assert_eq!(encrypted_scratch_path("/tmp", "model.bin", 7), "/tmp/model.bin.7.enc");
    assert_eq!(compressed_scratch_path("/tmp/", "m", 0), "/tmp/m.0.gz");
    assert_eq!(compressed_scratch_path("C:\\scratch\\", "m", 12), "C:\\scratch\\m.12.gz");
    assert_eq!(encrypted_scratch_path("", "m", 345), "m.345.enc");
    assert_eq!(
        encrypted_scratch_path("scratch", "m", u64::MAX),
        "scratch/m.18446744073709551615.enc"
    );
}

#[test]
fn scratch_paths_of_two_invocations_differ() {
    let first = compressed_scratch_path("/tmp", "model.bin", 1);
    let second = compressed_scratch_path("/tmp", "model.bin", 2);
    assert_ne!(first, second);
    // a name that ends like a token does not collide either
    assert_ne!(
        compressed_scratch_path("/tmp", "a.1", 2),
        compressed_scratch_path("/tmp", "a", 12)
    );
    assert_ne!(
        compressed_scratch_path("/tmp", "a", 1),
        encrypted_scratch_path("/tmp", "a", 1)
    );
}

#[test]
fn tokens_of_one_counter_are_all_different() {
    let mut counter = 41;
    assert_eq!(next_token(&mut counter), Some(41));
    assert_eq!(next_token(&mut counter), Some(42));
    assert_eq!(next_token(&mut counter), Some(43));
    assert_eq!(counter, 44);
}

#[test]
fn a_counter_at_its_last_value_gives_no_token() {
    let mut counter = u64::MAX - 1;
    assert_eq!(next_token(&mut counter), Some(u64::MAX - 1));
    assert_eq!(counter, u64::MAX);
    assert_eq!(next_token(&mut counter), None);
    assert_eq!(next_token(&mut counter), None);
    assert_eq!(counter, u64::MAX);
}
