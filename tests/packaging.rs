use jinx::docker::get_dockerignore;
use jinx::error::JinxError;
use jinx::files::jinx_files_for_home;
use jinx::targz::{
    create_jinx_loadbalancer_tar, get_jinx_loadbalancer_tar, is_excluded, join_components, write_tar,
    FsEntry,
};
use std::io::Read;

fn file(path: &str, data: &[u8]) -> FsEntry {
    FsEntry {
        components: path.split('/').map(|s| s.to_string()).collect(),
        mode: 0o644,
        contents: Some(data.to_vec()),
    }
}

fn unreadable(path: &str) -> FsEntry {
    FsEntry { components: path.split('/').map(|s| s.to_string()).collect(), mode: 0o644, contents: None }
}

fn entries_of(bytes: &[u8]) -> Vec<(String, u32, Vec<u8>)> {
    let mut archive = tar::Archive::new(bytes);
    let mut out = vec![];
    for e in archive.entries().unwrap() {
        let mut e = e.unwrap();
        let path = e.path().unwrap().to_string_lossy().to_string();
        let mode = e.header().mode().unwrap();
        let mut data = vec![];
        e.read_to_end(&mut data).unwrap();
        out.push((path, mode, data));
    }
    out
}

fn strings(v: &[&str]) -> Vec<String> {
    v.iter().map(|s| s.to_string()).collect()
}

#[test]
fn pack_includes_each_file_at_its_path() {
    let listing = vec![file("Dockerfile", b"FROM scratch\n"), file("src/main.rs", b"fn main() {}\n")];
    let bytes = write_tar(&listing, &vec![]).unwrap();
    let entries = entries_of(&bytes);
    assert_eq!(entries.len(), 2);
    assert_eq!(entries[0], ("Dockerfile".to_string(), 0o644, b"FROM scratch\n".to_vec()));
    assert_eq!(entries[1], ("src/main.rs".to_string(), 0o644, b"fn main() {}\n".to_vec()));
}

#[test]
fn pack_skips_excluded_names_and_directories() {
    let listing = vec![
        file("Dockerfile", b"FROM scratch\n"),
        file("target/debug/app", b"bin"),
        file("src/lib.rs", b"lib"),
        file("notes.log", b"log"),
    ];
    let bytes = write_tar(&listing, &strings(&["target", ".log"])).unwrap();
    let paths: Vec<String> = entries_of(&bytes).into_iter().map(|e| e.0).collect();
    assert_eq!(paths, vec!["Dockerfile".to_string(), "src/lib.rs".to_string()]);
}

#[test]
fn pack_keeps_mode() {
    let mut e = file("run.sh", b"#!/bin/sh\n");
    e.mode = 0o755;
    let bytes = write_tar(&vec![e], &vec![]).unwrap();
    assert_eq!(entries_of(&bytes)[0].1, 0o755);
}

#[test]
fn pack_of_nothing_is_an_empty_archive() {
    let bytes = write_tar(&vec![], &vec![]).unwrap();
    assert!(entries_of(&bytes).is_empty());
    assert!(bytes.iter().all(|b| *b == 0));
    assert_eq!(bytes.len(), 1024);
}

#[test]
fn unreadable_file_fails_packaging() {
    let listing = vec![file("a.txt", b"a"), unreadable("secret.key")];
    assert_eq!(write_tar(&listing, &vec![]), Err(JinxError::Packaging));
}

#[test]
fn unreadable_excluded_file_is_not_read() {
    let listing = vec![file("a.txt", b"a"), unreadable("secret.key")];
    let bytes = write_tar(&listing, &strings(&[".key"])).unwrap();
    assert_eq!(entries_of(&bytes).len(), 1);
}

#[test]
fn proxy_context_leaves_out_registry_and_archives() {
    let listing = vec![
        file("nginx.conf", b"user nginx;"),
        file("jinx_conf.json", b"{}"),
        file("api.jinx.tar.gz", b"x"),
        file("Dockerfile", b"FROM nginx"),
    ];
    let bytes = create_jinx_loadbalancer_tar(&listing).unwrap();
    let paths: Vec<String> = entries_of(&bytes).into_iter().map(|e| e.0).collect();
    assert_eq!(paths, vec!["nginx.conf".to_string(), "Dockerfile".to_string()]);
}

#[test]
fn proxy_archive_path() {
    let files = jinx_files_for_home(&"/home/op".to_string());
    assert_eq!(get_jinx_loadbalancer_tar(&files), "/home/op/.jinx/jinx_proxy.jinx.tar.gz");
}

#[test]
fn exclusion_is_substring_containment() {
    let ex = strings(&["node_modules", ".git"]);
    assert!(is_excluded(&"node_modules".to_string(), &ex));
    assert!(is_excluded(&".gitignore".to_string(), &ex));
    assert!(!is_excluded(&"src".to_string(), &ex));
    assert!(!is_excluded(&"src".to_string(), &vec![]));
}

#[test]
fn join_uses_slashes() {
    assert_eq!(join_components(&strings(&["a", "b", "c.txt"])), "a/b/c.txt");
    assert_eq!(join_components(&strings(&["c.txt"])), "c.txt");
    assert_eq!(join_components(&vec![]), "");
}

#[test]
fn dockerignore_lines_become_patterns() {
    let text = "target\r\n\nnode_modules\n.git".to_string();
    assert_eq!(get_dockerignore(&Some(text)), strings(&["target", "", "node_modules", ".git"]));
}

#[test]
fn missing_dockerignore_means_no_patterns() {
    assert!(get_dockerignore(&None).is_empty());
    assert!(get_dockerignore(&Some(String::new())).is_empty());
    assert_eq!(get_dockerignore(&Some("\n".to_string())), strings(&[""]));
    assert_eq!(get_dockerignore(&Some("\n\n".to_string())), strings(&["", ""]));
}

#[test]
fn parent_component_is_refused() {
    let listing = vec![file("../escape.txt", b"x")];
    assert_eq!(write_tar(&listing, &vec![]), Err(JinxError::Packaging));
}

#[test]
fn long_path_is_archived() {
    let deep = format!("{}/{}/file.txt", "d".repeat(80), "e".repeat(80));
    let bytes = write_tar(&vec![file(&deep, b"deep")], &vec![]).unwrap();
    let entries = entries_of(&bytes);
    assert_eq!(entries.len(), 1);
    assert_eq!(entries[0].0, deep);
    assert_eq!(entries[0].2, b"deep".to_vec());
}

#[test]
fn dockerignore_keeps_carriage_return_of_unterminated_line() {
    assert_eq!(get_dockerignore(&Some("a\r\nb\r".to_string())), strings(&["a", "b\r"]));
    assert_eq!(get_dockerignore(&Some("a\n".to_string())), strings(&["a"]));
}

#[test]
fn empty_pattern_excludes_nothing() {
    assert!(!is_excluded(&"src".to_string(), &strings(&[""])));
    let listing = vec![file("a.txt", b"a"), file("b.txt", b"b")];
    let bytes = write_tar(&listing, &strings(&["", "\n"])).unwrap();
    assert_eq!(entries_of(&bytes).len(), 2);
}

#[test]
fn names_with_colons_are_archived() {
    let bytes = write_tar(&vec![file("dir/a:b", b"x")], &vec![]).unwrap();
    assert_eq!(entries_of(&bytes)[0].0, "dir/a:b");
}
