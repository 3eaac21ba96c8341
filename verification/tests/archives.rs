use smart_archive_rar::{
    delete_entries, extract_archive, list_entries, list_entries_detailed, rebuild_missing_volumes,
    repair_archive, EntryInfo, Error, ExtractArchiveOptions, ExtractArchiveTask, RepairArchiveTask,
    Reply, Request, Status, Step,
};

fn done() -> Reply {
    Reply::Finished(Ok(()))
}

fn failed(why: &str) -> Reply {
    Reply::Finished(Err(why.to_string()))
}

fn asks<S, T: std::fmt::Debug>(step: Step<S, T>) -> (S, Request) {
    match step {
        Step::Ask { job, request } => (job, request),
        Step::Done(end) => panic!("{end:?}"),
    }
}

fn ends<S, T>(step: Step<S, T>) -> Result<T, Error> {
    match step {
        Step::Ask { job: _, request } => panic!("{request:?}"),
        Step::Done(end) => end,
    }
}

fn error<S, T: std::fmt::Debug>(step: Step<S, T>) -> (Status, String) {
    match ends(step) {
        Err(e) => (e.status, e.reason),
        Ok(value) => panic!("{value:?}"),
    }
}

fn generic(reason: &str) -> (Status, String) {
    (Status::GenericFailure, reason.to_string())
}

fn text(request: Request) -> String {
    format!("{request:?}")
}

fn opening(password: Option<&str>) -> String {
    text(Request::Open { path: "a.rar".to_string(), password: password.map(|p| p.to_string()) })
}

fn extraction(password: Option<&str>) -> ExtractArchiveTask {
    extract_archive(
        "a.rar".to_string(),
        ExtractArchiveOptions {
            dest_path: "dest".to_string(),
            password: password.map(|p| p.to_string()),
            flat: Some(true),
            max_dict_size: Some(12),
        },
    )
}

#[test]
fn extracting_opens_creates_the_destination_and_extracts() {
    let (job, request) = asks(extraction(Some("pw")).compute(Reply::Begin));
    assert_eq!(text(request), opening(Some("pw")));
    let (job, request) = asks(job.compute(done()));
    assert_eq!(text(request), text(Request::CreateDirAll("dest".to_string())));
    let (job, request) = asks(job.compute(done()));
    match request {
        Request::ExtractAll { dest, options } => {
            assert_eq!(dest, "dest");
            assert!(options.flat_paths);
            assert_eq!(options.max_dict_size, Some(12));
            assert_eq!(options.max_unpacked_bytes, None);
            assert_eq!(options.max_total_unpacked_bytes, None);
        }
        other => panic!("{other:?}"),
    }
    assert!(ends(job.compute(done())).is_ok());
}

#[test]
fn extracting_passes_on_what_goes_wrong() {
    let (job, request) = asks(extraction(Some("")).compute(Reply::Begin));
    assert_eq!(text(request), opening(None));
    assert_eq!(error(job.compute(failed("bad magic"))), generic("rar5: bad magic"));

    let (job, _) = asks(extraction(None).compute(Reply::Begin));
    let (job, _) = asks(job.compute(done()));
    assert_eq!(error(job.compute(failed("denied"))), generic("mkdir: denied"));

    let (job, _) = asks(extraction(None).compute(Reply::Begin));
    let (job, _) = asks(job.compute(done()));
    let (job, _) = asks(job.compute(done()));
    assert_eq!(error(job.compute(failed("bad crc"))), generic("rar5: bad crc"));

    assert_eq!(error(extraction(None).compute(done())), generic("unexpected reply"));
}

#[test]
fn deleting_deletes_the_named_members() {
    let names = vec!["b".to_string(), "a".to_string()];
    let job = delete_entries("a.rar".to_string(), names.clone(), Some("pw".to_string()));
    let (job, request) = asks(job.compute(Reply::Begin));
    assert_eq!(text(request), opening(Some("pw")));
    let (job, request) = asks(job.compute(done()));
    assert_eq!(text(request), text(Request::Delete(names)));
    assert!(matches!(ends(job.compute(Reply::Deleted(Ok(2)))), Ok(2)));
}

#[test]
fn deleting_passes_on_what_goes_wrong() {
    let new = || delete_entries("a.rar".to_string(), vec!["x".to_string()], None);
    let (job, request) = asks(new().compute(Reply::Begin));
    assert_eq!(text(request), opening(None));
    assert_eq!(error(job.compute(failed("locked"))), generic("rar5: locked"));
    let (job, _) = asks(new().compute(Reply::Begin));
    let (job, _) = asks(job.compute(done()));
    assert_eq!(
        error(job.compute(Reply::Deleted(Err("no member x".to_string())))),
        generic("rar5: no member x")
    );
    assert_eq!(error(new().compute(Reply::Acknowledged)), generic("unexpected reply"));
}

#[test]
fn counts_of_deleted_members_keep_their_low_32_bits() {
    let (job, _) = asks(delete_entries("a.rar".to_string(), vec![], None).compute(Reply::Begin));
    let (job, _) = asks(job.compute(done()));
    let count = usize::MAX / 2 + 1 + 7;
    assert!(matches!(ends(job.compute(Reply::Deleted(Ok(count)))), Ok(n) if n == count as u32));
}

#[test]
fn listing_gives_the_names_as_they_are() {
    let (job, request) =
        asks(list_entries("a.rar".to_string(), Some("pw".to_string())).compute(Reply::Begin));
    assert_eq!(text(request), opening(Some("pw")));
    let (job, request) = asks(job.compute(done()));
    assert_eq!(text(request), text(Request::ListNames));
    let names = vec!["z".to_string(), "a".to_string(), "z".to_string()];
    match ends(job.compute(Reply::Texts(names.clone()))) {
        Ok(listed) => assert_eq!(listed, names),
        Err(e) => panic!("{e:?}"),
    }
}

#[test]
fn listing_passes_on_what_goes_wrong() {
    let (job, request) =
        asks(list_entries("a.rar".to_string(), Some(String::new())).compute(Reply::Begin));
    assert_eq!(text(request), opening(None));
    assert_eq!(error(job.compute(failed("no file"))), generic("rar5: no file"));
    let (job, _) = asks(list_entries("a.rar".to_string(), None).compute(Reply::Begin));
    let (job, _) = asks(job.compute(done()));
    assert_eq!(error(job.compute(Reply::Members(vec![]))), generic("unexpected reply"));
}

#[test]
fn detailed_listing_gives_the_members_as_they_are() {
    let (job, request) =
        asks(list_entries_detailed("a.rar".to_string(), None).compute(Reply::Begin));
    assert_eq!(text(request), opening(None));
    let (job, request) = asks(job.compute(done()));
    assert_eq!(text(request), text(Request::ListMembers));
    let member = EntryInfo {
        name: "m".to_string(),
        size: 10,
        packed_size: 4,
        method: 3,
        is_dir: false,
        mtime: 1700000000,
    };
    match ends(job.compute(Reply::Members(vec![member]))) {
        Ok(members) => {
            assert_eq!(members.len(), 1);
            assert_eq!(members[0].name, "m");
            assert_eq!(members[0].size, 10);
            assert_eq!(members[0].packed_size, 4);
            assert_eq!(members[0].method, 3);
            assert!(!members[0].is_dir);
            assert_eq!(members[0].mtime, 1700000000);
        }
        Err(e) => panic!("{e:?}"),
    }
}

#[test]
fn detailed_listing_passes_on_what_goes_wrong() {
    let (job, _) = asks(list_entries_detailed("a.rar".to_string(), None).compute(Reply::Begin));
    assert_eq!(error(job.compute(failed("no file"))), generic("rar5: no file"));
    let (job, _) = asks(list_entries_detailed("a.rar".to_string(), None).compute(Reply::Begin));
    let (job, _) = asks(job.compute(done()));
    assert_eq!(error(job.compute(Reply::Texts(vec![]))), generic("unexpected reply"));
}

#[test]
fn the_two_listings_agree() {
    let password = || Some("pw".to_string());
    let (names_job, one) = asks(list_entries("a.rar".to_string(), password()).compute(Reply::Begin));
    let (members_job, two) =
        asks(list_entries_detailed("a.rar".to_string(), password()).compute(Reply::Begin));
    assert_eq!(text(one), text(two));
    let (names_job, _) = asks(names_job.compute(done()));
    let (members_job, _) = asks(members_job.compute(done()));
    let names = vec!["n".to_string(), "m".to_string()];
    let members = names
        .iter()
        .map(|name| EntryInfo {
            name: name.clone(),
            size: 1,
            packed_size: 1,
            method: 0,
            is_dir: false,
            mtime: 0,
        })
        .collect();
    match (
        ends(names_job.compute(Reply::Texts(names))),
        ends(members_job.compute(Reply::Members(members))),
    ) {
        (Ok(listed), Ok(described)) => {
            let described: Vec<String> = described.into_iter().map(|m| m.name).collect();
            assert_eq!(listed, described);
        }
        other => panic!("{other:?}"),
    }
    let (names_job, _) = asks(list_entries("a.rar".to_string(), None).compute(Reply::Begin));
    let (members_job, _) =
        asks(list_entries_detailed("a.rar".to_string(), None).compute(Reply::Begin));
    assert_eq!(
        error(names_job.compute(failed("no file"))),
        error(members_job.compute(failed("no file")))
    );
}

fn repair() -> RepairArchiveTask {
    repair_archive("in.rar".to_string(), "out.rar".to_string())
}

#[test]
fn repairing_writes_what_was_repaired() {
    let (job, request) = asks(repair().compute(Reply::Begin));
    assert_eq!(text(request), text(Request::ReadFile("in.rar".to_string())));
    let (job, request) = asks(job.compute(Reply::Bytes(Ok(vec![1, 2]))));
    assert_eq!(text(request), text(Request::Repair(vec![1, 2])));
    let (job, request) = asks(job.compute(Reply::Bytes(Ok(vec![3]))));
    assert_eq!(
        text(request),
        text(Request::WriteFile { path: "out.rar".to_string(), data: vec![3] })
    );
    assert!(ends(job.compute(done())).is_ok());
}

#[test]
fn repairing_passes_on_what_goes_wrong() {
    let (job, _) = asks(repair().compute(Reply::Begin));
    assert_eq!(
        error(job.compute(Reply::Bytes(Err("gone".to_string())))),
        generic("read in.rar: gone")
    );
    let (job, _) = asks(repair().compute(Reply::Begin));
    let (job, _) = asks(job.compute(Reply::Bytes(Ok(vec![]))));
    assert_eq!(
        error(job.compute(Reply::Bytes(Err("no record".to_string())))),
        generic("repair failed: no record")
    );
    let (job, _) = asks(repair().compute(Reply::Begin));
    let (job, _) = asks(job.compute(Reply::Bytes(Ok(vec![]))));
    let (job, _) = asks(job.compute(Reply::Bytes(Ok(vec![]))));
    assert_eq!(error(job.compute(failed("full"))), generic("write out.rar: full"));
    assert_eq!(error(repair().compute(done())), generic("unexpected reply"));
}

#[test]
fn rebuilding_passes_the_paths_on() {
    let new = || rebuild_missing_volumes("x.part1.rar".to_string());
    let (job, request) = asks(new().compute(Reply::Begin));
    assert_eq!(text(request), text(Request::RebuildVolumes("x.part1.rar".to_string())));
    let paths = vec!["x.part3.rar".to_string(), "x.part2.rar".to_string()];
    match ends(job.compute(Reply::Rebuilt(Ok(paths.clone())))) {
        Ok(rebuilt) => assert_eq!(rebuilt, paths),
        Err(e) => panic!("{e:?}"),
    }
    let (job, _) = asks(new().compute(Reply::Begin));
    assert_eq!(
        error(job.compute(Reply::Rebuilt(Err("too few".to_string())))),
        generic("rebuild failed: too few")
    );
    assert_eq!(error(new().compute(done())), generic("unexpected reply"));
}
