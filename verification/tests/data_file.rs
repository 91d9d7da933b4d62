use mind_tree::data_file::{DataFileStore, DataFileStoreError, Stamp};

#[test]
fn store_keeps_its_root() {
    let store = DataFileStore::new("/home/me/data");
    assert_eq!(store.root(), "/home/me/data");
}

#[test]
fn sanitized_names() {
    assert_eq!(DataFileStore::sanitize_name("  My note.v2  "), "My-note-v2");
    assert_eq!(DataFileStore::sanitize_name("a/b\\c d.e"), "a-b-c-d-e");
    assert_eq!(DataFileStore::sanitize_name("keep-this_one09AZaz"), "keep-this_one09AZaz");
    assert_eq!(DataFileStore::sanitize_name("héllo wörld!?"), "hllo-wrld");
    assert_eq!(DataFileStore::sanitize_name("tab\there"), "tabhere");
    assert_eq!(DataFileStore::sanitize_name("   "), "");
    assert_eq!(DataFileStore::sanitize_name(""), "");
}

#[test]
fn file_names_are_not_padded() {
    let stamp = Stamp {
        year: 2024,
        month: 1,
        day: 5,
        hour: 3,
        minute: 4,
        second: 9,
    };
    assert_eq!(
        DataFileStore::data_file_name(" my note ", ".md", &stamp),
        "202415349-my-note.md"
    );
    let stamp = Stamp {
        year: 1999,
        month: 12,
        day: 31,
        hour: 23,
        minute: 59,
        second: 0,
    };
    assert_eq!(
        DataFileStore::data_file_name("x", "", &stamp),
        "1999123123590-x"
    );
}

#[test]
fn file_names_with_large_and_negative_numbers() {
    let stamp = Stamp {
        year: -44,
        month: 3,
        day: 15,
        hour: 0,
        minute: 0,
        second: 0,
    };
    assert_eq!(
        DataFileStore::data_file_name("ides", ".txt", &stamp),
        "-44315000-ides.txt"
    );
    let stamp = Stamp {
        year: i32::MIN,
        month: u32::MAX,
        day: 10,
        hour: 100,
        minute: 0,
        second: 7,
    };
    assert_eq!(
        DataFileStore::data_file_name("n", "", &stamp),
        "-214748364842949672951010007-n"
    );
}

#[test]
fn file_names_at_a_moment() {
    assert_eq!(
        DataFileStore::data_file_name_at("my note", ".md", 0, 0).as_deref(),
        Some("197011000-my-note.md")
    );
    assert_eq!(
        DataFileStore::data_file_name_at("n", ".md", 1_700_000_000, 5).as_deref(),
        Some("20231114221320-n.md")
    );
    assert_eq!(
        DataFileStore::data_file_name_at("n", ".md", -1, 0).as_deref(),
        Some("19691231235959-n.md")
    );
    assert_eq!(DataFileStore::data_file_name_at("n", ".md", i64::MAX, 0), None);
    assert_eq!(DataFileStore::data_file_name_at("n", ".md", 0, 2_000_000_000), None);
}

#[test]
fn store_error_message() {
    assert_eq!(
        DataFileStoreError::FileSystemError("no space".to_owned()).message(),
        "filesystem error: no space"
    );
}
