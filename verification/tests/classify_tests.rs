use filebrowser::classify::{FileEntry, FileType};

fn entry(name: &str, size: Option<u64>) -> FileEntry {
    FileEntry { name: name.to_string(), filetype: FileType::Unknown, size }
}

#[test]
fn classify_code_extension() {
    assert_eq!(entry("main.rs", None).enumerate_filetype(), FileType::Code);
    assert_eq!(entry("index.html", None).enumerate_filetype(), FileType::Code);
}

#[test]
fn classify_is_case_insensitive() {
    assert_eq!(entry("SETUP.EXE", None).enumerate_filetype(), FileType::Executable);
    assert_eq!(entry("Song.FlAc", None).enumerate_filetype(), FileType::Media);
}

#[test]
fn classify_documents_and_archives() {
    assert_eq!(entry("notes.txt", None).enumerate_filetype(), FileType::Document);
    assert_eq!(entry("config.toml", None).enumerate_filetype(), FileType::Document);
    assert_eq!(entry("backup.7z", None).enumerate_filetype(), FileType::Zip);
    assert_eq!(entry("data.tar", None).enumerate_filetype(), FileType::Zip);
}

#[test]
fn classify_without_extension_is_unknown() {
    assert_eq!(entry("Makefile", None).enumerate_filetype(), FileType::Unknown);
    assert_eq!(entry("sh", None).enumerate_filetype(), FileType::Unknown);
}

#[test]
fn classify_empty_extension_is_unknown() {
    assert_eq!(entry("oddly.", None).enumerate_filetype(), FileType::Unknown);
    assert_eq!(entry(".gitignore", None).enumerate_filetype(), FileType::Unknown);
}

#[test]
fn classify_takes_last_extension() {
    assert_eq!(entry("archive.tar.gz", None).enumerate_filetype(), FileType::Zip);
}

#[test]
fn classify_keeps_cached_kind() {
    let e = FileEntry { name: "main.rs".to_string(), filetype: FileType::Media, size: None };
    assert_eq!(e.enumerate_filetype(), FileType::Media);
}

#[test]
fn symbol_line_with_megabytes() {
    let e = FileEntry {
        name: "a.txt".to_string(),
        filetype: FileType::Document,
        size: Some(1_572_864),
    };
    assert_eq!(e.assign_symbol(), "\u{1f4c4}  a.txt (1.50 MB)");
}

#[test]
fn symbol_line_with_gigabytes() {
    let e = FileEntry {
        name: "big.bin".to_string(),
        filetype: FileType::Unknown,
        size: Some(1_610_612_736),
    };
    assert_eq!(e.assign_symbol(), "\u{2753} big.bin (1.50 GB)");
}

#[test]
fn symbol_line_without_size() {
    let e = FileEntry { name: "m.rs".to_string(), filetype: FileType::Code, size: None };
    assert_eq!(e.assign_symbol(), "</>  m.rs (Size Unknown)");
}

#[test]
fn symbol_line_small_file_truncates() {
    let e = FileEntry { name: "s".to_string(), filetype: FileType::Unknown, size: Some(104_857) };
    assert_eq!(e.assign_symbol(), "\u{2753} s (0.09 MB)");
}
