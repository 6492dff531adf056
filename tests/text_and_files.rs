use boj::text::replace_all;
use boj::{default_archive_dir, file_exists, format::render, FileManager};

#[test]
fn replace_all_replaces_every_occurrence() {
    assert_eq!(replace_all("a{x}b{x}c", "{x}", "--"), "a--b--c");
    assert_eq!(replace_all("aaa", "aa", "b"), "ba");
    assert_eq!(replace_all("", "{x}", "y"), "");
    assert_eq!(replace_all("no match", "{x}", "y"), "no match");
    assert_eq!(replace_all("한{x}글", "{x}", "ß"), "한ß글");
}

#[test]
fn render_substitutes_in_fixed_order() {
    assert_eq!(render("{level}:{message}@{timestamp}", "T", "L", "M"), "L:M@T");
    assert_eq!(render("{message}", "T", "L", "{level}"), "{level}");
}

#[test]
fn full_path_joins_under_base() {
    assert_eq!(FileManager::new("base").full_path("a.txt"), "base/a.txt");
    assert_eq!(FileManager::new("base/").full_path("a.txt"), "base/a.txt");
    assert_eq!(FileManager::new("").full_path("a.txt"), "a.txt");
    assert_eq!(FileManager::new("base").full_path("/abs/a.txt"), "/abs/a.txt");
}

#[test]
fn exists_checks_the_disk() {
    assert!(file_exists("/"));
    assert!(!file_exists("/definitely/not/here/at/all"));
    let fm = FileManager::new("/");
    assert!(fm.entry_exists("etc"));
    assert!(!fm.entry_exists("no_such_file.toml"));
}

#[test]
fn archive_dir_default() {
    assert_eq!(default_archive_dir(), "archives");
}
