use smart_archive_rar::create::create_archive;
use smart_archive_rar::path::{basename, name_or_empty};
use smart_archive_rar::CreateArchiveOptions;

fn options(out_path: &str) -> CreateArchiveOptions {
    CreateArchiveOptions {
        out_path: out_path.to_string(),
        entries: Vec::new(),
        level: None,
        password: None,
        encrypt_headers: None,
        recovery_percent: None,
        recovery_volume_count: None,
        volume_size: None,
        max_total_bytes: None,
        dict_size: None,
        solid: None,
        quick_open: None,
        blake2: None,
        threads: None,
        save_ctime: None,
        save_atime: None,
        time_precision_seconds: None,
        save_owner: None,
        save_streams: None,
    }
}

fn parent(path: &str) -> Option<String> {
    create_archive(options(path), false).parent
}

/// `path` without its tail of slashes and parts `.`.
fn without_tail(path: &str) -> &str {
    let mut s = path;
    while s.len() > 1 && (s.ends_with('/') || s.ends_with("/.")) {
        s = &s[..s.len() - 1];
    }
    s
}

fn after_last_slash(path: &str) -> &str {
    match path.rfind('/') {
        Some(at) => &path[at + 1..],
        None => path,
    }
}

fn expected_name(path: &str) -> String {
    match after_last_slash(without_tail(path)) {
        "." | ".." => String::new(),
        name => name.to_string(),
    }
}

fn expected_parent(path: &str) -> Option<String> {
    let whole = without_tail(path);
    let last = after_last_slash(whole);
    if last.is_empty() {
        None
    } else {
        Some(without_tail(&whole[..whole.len() - last.len()]).to_string())
    }
}

#[test]
fn short_portable_paths_fall_into_the_stated_parts() {
    let paths = paths_over(&['a', '.', '/', '\u{e9}'], 7);
    for p in paths.iter().filter(|p| !p.starts_with("//")) {
        assert_eq!(basename(p), expected_name(p), "{p:?}");
        assert_eq!(parent(p), expected_parent(p), "{p:?}");
    }
}

#[test]
fn base_names_are_last_parts() {
    assert_eq!(basename("dir/file.txt"), "file.txt");
    assert_eq!(basename("/usr/share/"), "share");
    assert_eq!(basename("a/b/."), "b");
    assert_eq!(basename("file"), "file");
}

#[test]
fn paths_without_a_last_part_have_an_empty_base_name() {
    assert_eq!(basename(""), "");
    assert_eq!(basename("/"), "");
    assert_eq!(basename(".."), "");
    assert_eq!(basename("a/.."), "");
    assert_eq!(name_or_empty(None), "");
    assert_eq!(name_or_empty(Some("x".to_string())), "x");
}

#[test]
fn parents_are_what_comes_before_the_last_part() {
    assert_eq!(parent("out/a.rar"), Some("out".to_string()));
    assert_eq!(parent("a.rar"), Some(String::new()));
    assert_eq!(parent("/a.rar"), Some("/".to_string()));
    assert_eq!(parent("x//./a.rar"), Some("x".to_string()));
    assert_eq!(parent("/"), None);
    assert_eq!(parent(""), None);
}

#[test]
fn joined_paths_come_apart_again() {
    for dir in ["d", "/d", "d/e", "./d", "../d"] {
        for name in ["n", "n.tar", "...", ".n", "n."] {
            let path = format!("{dir}/{name}");
            assert_eq!(basename(&path), name);
            assert_eq!(parent(&path), Some(dir.to_string()));
        }
    }
}

/// Whether a slash alone parts paths here.
fn slashes_alone() -> bool {
    !std::path::is_separator('\\')
}

fn paths_over(letters: &[char], longest: usize) -> Vec<String> {
    let mut paths = vec![String::new()];
    let mut last = paths.clone();
    for _ in 0..longest {
        let mut next = Vec::new();
        for p in &last {
            for c in letters {
                next.push(format!("{p}{c}"));
            }
        }
        paths.extend(next.iter().cloned());
        last = next;
    }
    paths
}

/// The reading of a path that first drops a drive and takes a backslash for a
/// slash.
fn drive_reading(path: &str) -> (String, Option<String>) {
    let bytes = path.as_bytes();
    let drive = if bytes.len() >= 2 && bytes[0].is_ascii_alphabetic() && bytes[1] == b':' {
        2
    } else {
        0
    };
    let rest = path[drive..].replace('\\', "/");
    let parent = if drive > 0 && without_tail(&rest) == "." {
        None
    } else {
        expected_parent(&rest).map(|p| path[..drive + p.len()].to_string())
    };
    (expected_name(&rest), parent)
}

/// Whether Windows may give a path that starts with two separators, and is not
/// verbatim, this name and this parent.
fn is_share_reading(path: &str, name: &str, parent: Option<&str>) -> bool {
    let read = path.replace('\\', "/");
    let few = without_tail(&read).split('/').filter(|part| !part.is_empty()).count() <= 2;
    let name_fits = name == expected_name(&read) || (name.is_empty() && few);
    let parent_fits = match parent {
        Some(p) => {
            path.starts_with(p)
                && expected_parent(&read).as_deref() == Some(without_tail(&p.replace('\\', "/")))
        }
        None => few || expected_parent(&read).is_none(),
    };
    name_fits && parent_fits
}

#[test]
fn other_paths_are_read_as_the_platform_reads_them() {
    for p in paths_over(&['a', '.', '/', '\\', ':'], 6) {
        let (name, above) = (basename(&p), parent(&p));
        if slashes_alone() {
            assert_eq!(name, expected_name(&p), "{p:?}");
            assert_eq!(above, expected_parent(&p), "{p:?}");
        } else {
            let separator = |c: char| c == '/' || c == '\\';
            if p.len() >= 2 && p.chars().take(2).all(separator) {
                assert!(is_share_reading(&p, &name, above.as_deref()), "{p:?}");
            } else {
                assert_eq!((name, above), drive_reading(&p), "{p:?}");
            }
        }
    }
}

#[test]
fn base_names_are_their_own_where_slashes_alone_part_paths() {
    if slashes_alone() {
        for p in paths_over(&['a', '.', '/', '\\', ':'], 5) {
            let name = basename(&p);
            assert!(!name.contains('/'));
            assert_eq!(basename(&name), name);
            assert_eq!(name.is_empty(), std::path::Path::new(&p).file_name().is_none());
        }
    }
}

#[test]
fn drive_paths_come_apart_where_backslashes_part_paths() {
    let path = "C:\\dir\\file.txt";
    if slashes_alone() {
        assert_eq!(basename(path), path);
        assert_eq!(parent(path), Some(String::new()));
    } else {
        assert_eq!(basename(path), "file.txt");
        assert_eq!(parent(path), Some("C:\\dir".to_string()));
    }
    assert_eq!(drive_reading(path), ("file.txt".to_string(), Some("C:\\dir".to_string())));
    assert_eq!(drive_reading("C:x"), ("x".to_string(), Some("C:".to_string())));
    assert_eq!(drive_reading("C:\\"), (String::new(), None));
    assert_eq!(drive_reading("C:./a"), ("a".to_string(), Some("C:.".to_string())));
    for path in ["C:", "C:.", "C:./", "C:.\\", "C:./."] {
        assert_eq!(drive_reading(path), (String::new(), None));
        let expected = if slashes_alone() {
            expected_parent(path)
        } else {
            None
        };
        assert_eq!(parent(path), expected);
    }
}

#[test]
fn paths_of_shares_come_apart() {
    let path = "//server/share/dir/file";
    assert_eq!(basename(path), "file");
    assert_eq!(parent(path), Some("//server/share/dir".to_string()));
    let root = parent("//server/share/file");
    if slashes_alone() {
        assert_eq!(root, Some("//server/share".to_string()));
        assert_eq!(basename("//server/share"), "share");
    } else {
        assert_eq!(root, Some("//server/share/".to_string()));
        assert_eq!(basename("//server/share"), "");
    }
    assert!(is_share_reading("//s/h/f", "f", Some("//s/h")));
    assert!(is_share_reading("//s/h/f", "f", Some("//s/h/")));
    assert!(is_share_reading("//s/h", "", None));
    assert!(!is_share_reading("//s/h/f", "", Some("//s/h")));
    assert!(!is_share_reading("//s/h/f", "f", None));
}

#[test]
fn names_of_other_paths_are_stretches_of_them() {
    for path in ["C:\\dir\\file", "a\\b", "//server/share/x", "x:y", "\\\\?\\C:\\z"] {
        let name = basename(path);
        assert!(path.contains(&name));
        if let Some(p) = parent(path) {
            assert!(p.len() < path.len() && path.starts_with(&p));
        }
    }
}
