use smart_archive_rar::batch::{build_batch, BatchEntry};
use smart_archive_rar::budget::{check_limit, entry_size, paths_to_measure, total_size};
use smart_archive_rar::entry::{
    base_names, paths_to_inspect, plan_entries, plan_entry, EntryInput, FileMeta, Inspection,
    PlannedEntry, MAX_FILE_BYTES, MAX_TOTAL_BYTES,
};
use smart_archive_rar::{Error, Status};

fn entry(kind: &str, path: Option<&str>, name: Option<&str>, data: Option<&[u8]>) -> EntryInput {
    EntryInput {
        kind: kind.to_string(),
        path: path.map(|s| s.to_string()),
        name: name.map(|s| s.to_string()),
        data: data.map(|d| d.to_vec()),
    }
}

fn file(len: u64) -> Inspection {
    Ok(FileMeta { is_file: true, is_dir: false, len })
}

fn dir() -> Inspection {
    Ok(FileMeta { is_file: false, is_dir: true, len: 4096 })
}

fn missing() -> Inspection {
    Err("No such file or directory (os error 2)".to_string())
}

fn plan_one(e: EntryInput, seen: Inspection) -> Result<PlannedEntry, Error> {
    let bases = base_names(&vec![entry(&e.kind, e.path.as_deref(), None, None)]);
    plan_entry(e, &bases[0], &seen)
}

fn refusal(e: EntryInput, seen: Inspection) -> String {
    match plan_one(e, seen) {
        Ok(planned) => panic!("planned: {planned:?}"),
        Err(e) => {
            assert_eq!(e.status, Status::InvalidArg);
            e.reason
        }
    }
}

#[test]
fn files_are_named_by_their_path_unless_named() {
    match plan_one(entry("file", Some("d/a.txt"), None, None), file(3)) {
        Ok(PlannedEntry::File { path, name }) => {
            assert_eq!(path, "d/a.txt");
            assert_eq!(name, "a.txt");
        }
        other => panic!("{other:?}"),
    }
    match plan_one(entry("file", Some("d/a.txt"), Some("b/c"), None), file(3)) {
        Ok(PlannedEntry::File { path, name }) => {
            assert_eq!(path, "d/a.txt");
            assert_eq!(name, "b/c");
        }
        other => panic!("{other:?}"),
    }
}

#[test]
fn directories_are_named_by_their_path_unless_named() {
    match plan_one(entry("dir", Some("x/y/"), None, None), dir()) {
        Ok(PlannedEntry::Dir { path, name }) => {
            assert_eq!(path, "x/y/");
            assert_eq!(name, "y");
        }
        other => panic!("{other:?}"),
    }
    match plan_one(entry("dir", Some("x"), Some(""), None), dir()) {
        Ok(PlannedEntry::Dir { path, name }) => {
            assert_eq!(path, "x");
            assert_eq!(name, "");
        }
        other => panic!("{other:?}"),
    }
}

#[test]
fn bytes_are_taken_as_they_are() {
    match plan_one(entry("bytes", None, Some("n"), Some(&[1, 2, 3])), missing()) {
        Ok(PlannedEntry::Bytes { name, data }) => {
            assert_eq!(name, "n");
            assert_eq!(data, vec![1, 2, 3]);
        }
        other => panic!("{other:?}"),
    }
}

#[test]
fn entries_without_what_they_need_are_refused() {
    assert_eq!(refusal(entry("file", None, Some("n"), None), file(1)), "file entry missing `path`");
    assert_eq!(refusal(entry("dir", None, Some("n"), None), dir()), "dir entry missing `path`");
    assert_eq!(
        refusal(entry("bytes", None, Some("n"), None), missing()),
        "bytes entry missing `data`"
    );
    assert_eq!(
        refusal(entry("bytes", None, None, Some(&[])), missing()),
        "bytes entry missing `name`"
    );
    assert_eq!(refusal(entry("bytes", None, None, None), missing()), "bytes entry missing `data`");
}

#[test]
fn unknown_kinds_are_refused() {
    assert_eq!(refusal(entry("link", Some("p"), None, None), file(1)), "unknown entry kind: link");
    assert_eq!(refusal(entry("", None, None, None), missing()), "unknown entry kind: ");
    assert_eq!(refusal(entry("File", Some("p"), None, None), file(1)), "unknown entry kind: File");
}

#[test]
fn paths_must_be_what_the_entry_says() {
    assert_eq!(
        refusal(entry("file", Some("no/such"), None, None), missing()),
        "cannot stat no/such: No such file or directory (os error 2)"
    );
    assert_eq!(refusal(entry("file", Some("d"), None, None), dir()), "d is not a file");
    assert_eq!(refusal(entry("dir", Some("f"), None, None), file(1)), "f is not a directory");
    assert_eq!(refusal(entry("dir", Some("gone"), None, None), missing()), "gone is not a directory");
}

#[test]
fn files_over_4_gib_are_refused() {
    assert!(plan_one(entry("file", Some("f"), None, None), file(MAX_FILE_BYTES)).is_ok());
    assert_eq!(
        refusal(entry("file", Some("f"), None, None), file(MAX_FILE_BYTES + 1)),
        "f is 4.0 GiB, rar5 supports files up to 4 GiB"
    );
    assert_eq!(
        refusal(entry("file", Some("big"), None, None), file(11 << 29)),
        "big is 5.5 GiB, rar5 supports files up to 4 GiB"
    );
    assert_eq!(
        refusal(entry("file", Some("big"), None, None), file(u64::MAX)),
        "big is 17179869184.0 GiB, rar5 supports files up to 4 GiB"
    );
}

fn plan(entries: Vec<EntryInput>, seen: Vec<Inspection>) -> Result<Vec<PlannedEntry>, Error> {
    let bases = base_names(&entries);
    plan_entries(entries, &bases, &seen)
}

#[test]
fn a_job_needs_an_entry() {
    match plan(Vec::new(), Vec::new()) {
        Err(e) => {
            assert_eq!(e.reason, "no entries to archive");
            assert_eq!(e.status, Status::InvalidArg);
        }
        Ok(planned) => panic!("{planned:?}"),
    }
}

#[test]
fn entries_are_planned_in_order() {
    let entries = vec![
        entry("bytes", None, Some("one"), Some(&[1])),
        entry("dir", Some("a/two"), None, None),
        entry("file", Some("a/three"), None, None),
    ];
    match plan(entries, vec![missing(), dir(), file(9)]) {
        Ok(planned) => {
            assert_eq!(planned.len(), 3);
            assert!(matches!(&planned[0], PlannedEntry::Bytes { name, .. } if name == "one"));
            assert!(matches!(&planned[1], PlannedEntry::Dir { name, .. } if name == "two"));
            assert!(matches!(&planned[2], PlannedEntry::File { name, .. } if name == "three"));
        }
        Err(e) => panic!("{e:?}"),
    }
}

#[test]
fn the_first_bad_entry_decides_the_error() {
    let entries = vec![
        entry("bytes", None, Some("one"), Some(&[1])),
        entry("dir", Some("a"), None, None),
        entry("link", None, None, None),
    ];
    match plan(entries, vec![missing(), file(1), missing()]) {
        Err(e) => assert_eq!(e.reason, "a is not a directory"),
        Ok(planned) => panic!("{planned:?}"),
    }
}

#[test]
fn only_paths_that_matter_are_inspected() {
    let entries = vec![
        entry("file", Some("f"), None, None),
        entry("bytes", Some("ignored"), Some("n"), Some(&[])),
        entry("dir", Some("d"), None, None),
        entry("file", None, None, None),
        entry("link", Some("l"), None, None),
    ];
    assert_eq!(
        paths_to_inspect(&entries),
        vec![Some("f".to_string()), None, Some("d".to_string()), None, None]
    );
    assert_eq!(base_names(&entries), vec!["f", "ignored", "d", "", "l"]);
}

fn planned() -> Vec<PlannedEntry> {
    vec![
        PlannedEntry::File { path: "p/f".to_string(), name: "f".to_string() },
        PlannedEntry::Dir { path: "p".to_string(), name: "p".to_string() },
        PlannedEntry::Bytes { name: "b".to_string(), data: vec![7; 10] },
    ]
}

#[test]
fn directories_weigh_nothing() {
    let p = planned();
    assert!(matches!(entry_size(&p[0], &file(5)), Ok(5)));
    assert!(matches!(entry_size(&p[1], &dir()), Ok(0)));
    assert!(matches!(entry_size(&p[2], &missing()), Ok(10)));
    assert!(matches!(total_size(&p, &vec![file(5), missing(), missing()]), Ok(15)));
    assert_eq!(paths_to_measure(&p), vec![Some("p/f".to_string()), None, None]);
}

#[test]
fn a_further_directory_leaves_the_total_as_it_is() {
    let mut more = planned();
    more.push(PlannedEntry::Dir { path: "q".to_string(), name: "q".to_string() });
    assert!(matches!(total_size(&more, &vec![file(5), dir(), missing(), file(900)]), Ok(15)));
}

#[test]
fn files_that_vanish_before_they_are_measured_fail_the_job() {
    match total_size(&planned(), &vec![missing(), missing(), missing()]) {
        Err(e) => {
            assert_eq!(e.reason, "stat p/f: No such file or directory (os error 2)");
            assert_eq!(e.status, Status::GenericFailure);
        }
        Ok(total) => panic!("{total}"),
    }
}

#[test]
fn jobs_over_32_gib_are_refused() {
    assert!(matches!(
        total_size(&planned(), &vec![file(MAX_TOTAL_BYTES - 10), dir(), missing()]),
        Ok(MAX_TOTAL_BYTES)
    ));
    for len in [MAX_TOTAL_BYTES - 9, u64::MAX] {
        match total_size(&planned(), &vec![file(len), dir(), missing()]) {
            Err(e) => {
                assert_eq!(e.reason, "total input size exceeds 32 GiB limit");
                assert_eq!(e.status, Status::InvalidArg);
            }
            Ok(total) => panic!("{total}"),
        }
    }
}

#[test]
fn the_total_is_the_sum() {
    let entries: Vec<PlannedEntry> = (0..20)
        .map(|i| PlannedEntry::File { path: format!("f{i}"), name: format!("f{i}") })
        .collect();
    let seen: Vec<Inspection> = (0..20u64).map(|i| file(i * i)).collect();
    assert!(matches!(total_size(&entries, &seen), Ok(2470)));
}

#[test]
fn sums_over_the_limit_are_refused_in_mib() {
    assert!(check_limit(100, None).is_ok());
    assert!(check_limit(100, Some(100)).is_ok());
    assert!(check_limit(0, Some(0)).is_ok());
    match check_limit(3 << 20, Some(3 << 19)) {
        Err(e) => {
            assert_eq!(e.reason, "total input size 3.0 MiB exceeds limit 1.5 MiB");
            assert_eq!(e.status, Status::InvalidArg);
        }
        Ok(()) => panic!("not refused"),
    }
    assert!(check_limit(0, Some(-1)).is_err());
    assert!(check_limit(MAX_TOTAL_BYTES, Some(i64::MIN)).is_err());
    assert!(check_limit(MAX_TOTAL_BYTES, Some(i64::MAX)).is_ok());
    match check_limit(101, Some(100)) {
        Err(e) => assert_eq!(e.reason, "total input size 0.0 MiB exceeds limit 0.0 MiB"),
        Ok(()) => panic!("not refused"),
    }
}

#[test]
fn every_entry_is_handed_over_at_the_level() {
    let batch = build_batch(planned(), 4);
    assert_eq!(batch.len(), 3);
    match &batch[0] {
        BatchEntry::File { path, name, level } => {
            assert_eq!(path, "p/f");
            assert_eq!(name.as_deref(), Some("f"));
            assert_eq!(*level, 4);
        }
        other => panic!("{other:?}"),
    }
    match &batch[1] {
        BatchEntry::Directory { path, name } => {
            assert_eq!(path, "p");
            assert_eq!(name.as_deref(), Some("p"));
        }
        other => panic!("{other:?}"),
    }
    match &batch[2] {
        BatchEntry::Bytes { name, data, level } => {
            assert_eq!(name, "b");
            assert_eq!(data, &vec![7; 10]);
            assert_eq!(*level, 4);
        }
        other => panic!("{other:?}"),
    }
}

#[test]
fn only_files_may_be_left_without_a_name() {
    let batch = build_batch(
        vec![
            PlannedEntry::File { path: "..".to_string(), name: String::new() },
            PlannedEntry::Dir { path: "..".to_string(), name: String::new() },
            PlannedEntry::Bytes { name: String::new(), data: vec![] },
        ],
        0,
    );
    assert!(matches!(&batch[0], BatchEntry::File { name: None, .. }));
    assert!(matches!(&batch[1], BatchEntry::Directory { name: Some(n), .. } if n.is_empty()));
    assert!(matches!(&batch[2], BatchEntry::Bytes { name: n, .. } if n.is_empty()));
}
