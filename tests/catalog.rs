use secure_folder::catalog::{counterpart_ext, get_file_list, Role};
use secure_folder::error::ErrorKind;

fn names(list: &[&str]) -> Vec<String> {
    list.iter().map(|s| s.to_string()).collect()
}

#[test]
fn test_get_file_list_when_encrypt() {
    let entries = names(&[
        "0057a2b4-fb8c-46bb-8133-ef9920b7bced.mp4",
        "c7dc8644-8559-44f5-96e8-ecc035067856.mp4",
        "0057a2b4-fb8c-46bb-8133-ef9920b7bced.enc",
    ]);
    let file_list = get_file_list(&entries, &entries, ".mp4").expect("fail");
    assert_eq!(file_list.len(), 1);
}

#[test]
fn test_get_file_list_when_decrypt() {
    let entries = names(&[
        "0057a2b4-fb8c-46bb-8133-ef9920b7bced.enc",
        "c7dc8644-8559-44f5-96e8-ecc035067856.enc",
        "0057a2b4-fb8c-46bb-8133-ef9920b7bced.mp4",
    ]);
    let file_list = get_file_list(&entries, &entries, ".enc").expect("fail");
    assert_eq!(file_list.len(), 1);
}

#[test]
fn encrypt_catalog_skips_files_with_counterpart() {
    let entries = names(&["a.mp4", "b.mp4", "a.enc"]);
    let list = get_file_list(&entries, &entries, Role::Encrypt.source_ext()).unwrap();
    assert_eq!(list, vec!["b".to_string()]);
}

#[test]
fn decrypt_catalog_skips_files_with_counterpart() {
    let entries = names(&["a.enc", "c.enc", "a.mp4"]);
    let list = get_file_list(&entries, &entries, Role::Decrypt.source_ext()).unwrap();
    assert_eq!(list, vec!["c".to_string()]);
}

#[test]
fn catalog_keeps_listing_order_and_separate_output_dir() {
    let inputs = names(&["x.mp4", "notes.txt", "y.mp4", "z.mp4"]);
    let outputs = names(&["y.enc"]);
    let list = get_file_list(&inputs, &outputs, ".mp4").unwrap();
    assert_eq!(list, vec!["x".to_string(), "z".to_string()]);
}

#[test]
fn catalog_cuts_identifier_at_first_dot() {
    let inputs = names(&["clip.part1.mp4", "plain"]);
    let outputs: Vec<String> = Vec::new();
    let list = get_file_list(&inputs, &outputs, ".mp4").unwrap();
    assert_eq!(list, vec!["clip".to_string()]);
}

#[test]
fn catalog_of_empty_directory_is_empty() {
    let empty: Vec<String> = Vec::new();
    assert!(get_file_list(&empty, &empty, ".enc").unwrap().is_empty());
}

#[test]
fn catalog_rejects_unknown_extension() {
    let inputs = names(&["a.mp4"]);
    let err = get_file_list(&inputs, &inputs, ".avi").err().unwrap();
    assert_eq!(err.kind, ErrorKind::Catalog);
    assert_eq!(err.message, "invalid file_type for file list");
    assert!(err.stderr.is_none() && err.stdout.is_none());
}

#[test]
fn counterpart_extensions_swap() {
    assert_eq!(counterpart_ext(".mp4").ok().unwrap(), ".enc");
    assert_eq!(counterpart_ext(".enc").ok().unwrap(), ".mp4");
    assert_eq!(counterpart_ext("mp4").err().unwrap().kind, ErrorKind::Catalog);
}

#[test]
fn second_run_over_written_outputs_finds_nothing() {
    let inputs = names(&[
        "0057a2b4-fb8c-46bb-8133-ef9920b7bced.mp4",
        "c7dc8644-8559-44f5-96e8-ecc035067856.mp4",
    ]);
    let mut outputs: Vec<String> = Vec::new();
    let first = get_file_list(&inputs, &outputs, ".mp4").unwrap();
    assert_eq!(first.len(), 2);
    for job in &first {
        outputs.push(format!("{}.enc", job));
    }
    assert!(get_file_list(&inputs, &outputs, ".mp4").unwrap().is_empty());
}

#[test]
fn role_extensions() {
    assert_eq!(Role::Encrypt.source_ext(), ".mp4");
    assert_eq!(Role::Encrypt.target_ext(), ".enc");
    assert_eq!(Role::Decrypt.source_ext(), ".enc");
    assert_eq!(Role::Decrypt.target_ext(), ".mp4");
}
