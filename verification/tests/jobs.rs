use smart_archive_rar::batch::BatchEntry;
use smart_archive_rar::entry::{FileMeta, Inspection, MAX_TOTAL_BYTES};
use smart_archive_rar::{
    append_entries, create_archive, AppendArchiveOptions, AppendArchiveTask, CreateArchiveOptions,
    CreateArchiveTask, CreateResult, EntryInput, Error, ProgressData, Reply, Request, Status, Step,
};

fn entries() -> Vec<EntryInput> {
    vec![
        EntryInput {
            kind: "file".to_string(),
            path: Some("src/a.txt".to_string()),
            name: None,
            data: None,
        },
        EntryInput {
            kind: "dir".to_string(),
            path: Some("src".to_string()),
            name: Some("code".to_string()),
            data: None,
        },
        EntryInput {
            kind: "bytes".to_string(),
            path: None,
            name: Some("note".to_string()),
            data: Some(vec![9; 24]),
        },
    ]
}

fn create_options() -> CreateArchiveOptions {
    CreateArchiveOptions {
        out_path: "out/x.rar".to_string(),
        entries: entries(),
        level: Some(1),
        password: Some("pw".to_string()),
        encrypt_headers: Some(true),
        recovery_percent: Some(5),
        recovery_volume_count: None,
        volume_size: None,
        max_total_bytes: Some(1 << 20),
        dict_size: Some("1m".to_string()),
        solid: None,
        quick_open: None,
        blake2: None,
        threads: Some(2),
        save_ctime: None,
        save_atime: None,
        time_precision_seconds: None,
        save_owner: None,
        save_streams: None,
    }
}

fn append_options() -> AppendArchiveOptions {
    AppendArchiveOptions {
        archive_path: "y.rar".to_string(),
        entries: entries(),
        level: None,
        password: None,
        dict_size: Some("5g".to_string()),
    }
}

fn meta(is_file: bool, len: u64) -> Inspection {
    Ok(FileMeta { is_file, is_dir: !is_file, len })
}

fn seen(len: u64) -> Reply {
    Reply::Inspected(vec![meta(true, len), meta(false, 4096), Err(String::new())])
}

fn done() -> Reply {
    Reply::Finished(Ok(()))
}

fn failed(why: &str) -> Reply {
    Reply::Finished(Err(why.to_string()))
}

type Outcome = Result<CreateResult, Error>;

/// Hands a job the replies one by one; gives the requests that it made, in the
/// form that `Debug` gives them, and how it ended, if it did.
fn talk_create(opts: CreateArchiveOptions, progress: bool, replies: Vec<Reply>) -> (Vec<String>, Option<Outcome>) {
    let mut job: CreateArchiveTask = create_archive(opts, progress);
    let mut asked = Vec::new();
    let mut left = replies.into_iter();
    while let Some(reply) = left.next() {
        match job.compute(reply) {
            Step::Ask { job: next, request } => {
                asked.push(format!("{request:?}"));
                job = next;
            }
            Step::Done(outcome) => {
                assert!(left.next().is_none());
                return (asked, Some(outcome));
            }
        }
    }
    (asked, None)
}

fn talk_append(opts: AppendArchiveOptions, progress: bool, replies: Vec<Reply>) -> (Vec<String>, Option<Outcome>) {
    let mut job: AppendArchiveTask = append_entries(opts, progress);
    let mut asked = Vec::new();
    let mut left = replies.into_iter();
    while let Some(reply) = left.next() {
        match job.compute(reply) {
            Step::Ask { job: next, request } => {
                asked.push(format!("{request:?}"));
                job = next;
            }
            Step::Done(outcome) => {
                assert!(left.next().is_none());
                return (asked, Some(outcome));
            }
        }
    }
    (asked, None)
}

fn error_of(end: Option<Outcome>) -> (Status, String) {
    match end {
        Some(Err(e)) => (e.status, e.reason),
        other => panic!("{other:?}"),
    }
}

fn files_of(end: Option<Outcome>) -> Vec<String> {
    match end {
        Some(Ok(result)) => result.files,
        other => panic!("{other:?}"),
    }
}

fn text(request: Request) -> String {
    format!("{request:?}")
}

fn found() -> Reply {
    Reply::Texts(vec!["x.part2.rar".to_string(), "x.part1.rar".to_string()])
}

fn batch(level: u8) -> Vec<BatchEntry> {
    vec![
        BatchEntry::File {
            path: "src/a.txt".to_string(),
            name: Some("a.txt".to_string()),
            level,
        },
        BatchEntry::Directory { path: "src".to_string(), name: Some("code".to_string()) },
        BatchEntry::Bytes { name: "note".to_string(), data: vec![9; 24], level },
    ]
}

#[test]
fn creating_asks_for_one_thing_after_the_other() {
    let replies = vec![
        Reply::Begin,
        seen(1000),
        seen(1000),
        done(),
        Reply::Acknowledged,
        done(),
        done(),
        done(),
        Reply::Acknowledged,
        found(),
    ];
    let (asked, end) = talk_create(create_options(), true, replies);
    let looked_at = vec![Some("src/a.txt".to_string()), Some("src".to_string()), None];
    let measured = vec![Some("src/a.txt".to_string()), None, None];
    assert_eq!(asked.len(), 9);
    assert_eq!(asked[0], text(Request::Inspect(looked_at)));
    assert_eq!(asked[1], text(Request::Inspect(measured)));
    assert_eq!(asked[2], text(Request::CreateDirAll("out".to_string())));
    assert_eq!(asked[3], text(Request::SetThreads(2)));
    assert!(asked[4].starts_with("Create { path: \"out/x.rar\""));
    for part in [
        "password: Some(\"pw\")",
        "encrypt_headers: true",
        "recovery_percent: Some(5)",
        "dict_size_log: Some(3)",
        "save_mtime: true",
        "solid: false",
    ] {
        assert!(asked[4].contains(part), "{part}");
    }
    assert_eq!(
        asked[5],
        text(Request::AddBatch { entries: batch(1), total_bytes: 1024, progress: true })
    );
    assert_eq!(asked[6], text(Request::Close));
    assert_eq!(asked[7], text(Request::Notify(ProgressData { done: 1024, total: 1024 })));
    assert_eq!(asked[8], text(Request::DiscoverVolumes("out/x.rar".to_string())));
    assert_eq!(files_of(end), vec!["x.part1.rar", "x.part2.rar"]);
}

#[test]
fn creating_skips_what_was_not_asked_for() {
    let opts = CreateArchiveOptions {
        out_path: String::new(),
        threads: None,
        password: Some(String::new()),
        max_total_bytes: None,
        ..create_options()
    };
    let replies = vec![Reply::Begin, seen(1), seen(1), done(), done(), done(), found()];
    let (asked, end) = talk_create(opts, false, replies);
    assert_eq!(asked.len(), 6);
    assert!(asked[2].starts_with("Create { path: \"\""));
    assert!(asked[2].contains("password: None"));
    assert_eq!(
        asked[3],
        text(Request::AddBatch { entries: batch(1), total_bytes: 25, progress: false })
    );
    assert_eq!(asked[4], text(Request::Close));
    assert_eq!(asked[5], text(Request::DiscoverVolumes(String::new())));
    assert_eq!(files_of(end), vec!["x.part1.rar", "x.part2.rar"]);
}

#[test]
fn creating_refuses_a_bad_plan_before_it_touches_anything() {
    let gone = Reply::Inspected(vec![Err("gone".to_string()), meta(false, 0), Err(String::new())]);
    let (asked, end) = talk_create(create_options(), true, vec![Reply::Begin, gone]);
    assert_eq!(asked.len(), 1);
    assert_eq!(error_of(end), (Status::InvalidArg, "cannot stat src/a.txt: gone".to_string()));
}

#[test]
fn creating_refuses_an_empty_job() {
    let opts = CreateArchiveOptions { entries: Vec::new(), ..create_options() };
    let (_, end) = talk_create(opts, true, vec![Reply::Begin, Reply::Inspected(Vec::new())]);
    assert_eq!(error_of(end), (Status::InvalidArg, "no entries to archive".to_string()));
}

#[test]
fn creating_refuses_what_is_too_large_before_it_touches_anything() {
    let (asked, end) =
        talk_create(create_options(), true, vec![Reply::Begin, seen(1), seen((2 << 20) - 24)]);
    assert_eq!(asked.len(), 2);
    assert_eq!(
        error_of(end),
        (
            Status::InvalidArg,
            "total input size 2.0 MiB exceeds limit 1.0 MiB".to_string()
        )
    );
    let (asked, end) =
        talk_create(create_options(), true, vec![Reply::Begin, seen(1), seen(MAX_TOTAL_BYTES)]);
    assert_eq!(asked.len(), 2);
    assert_eq!(
        error_of(end),
        (Status::InvalidArg, "total input size exceeds 32 GiB limit".to_string())
    );
}

#[test]
fn a_negative_limit_refuses_every_job() {
    for (limit, text) in [(-1, "-0.0"), (-(3 << 19), "-1.5"), (i64::MIN, "-8796093022208.0")] {
        let opts = CreateArchiveOptions { max_total_bytes: Some(limit), ..create_options() };
        let (asked, end) =
            talk_create(opts, true, vec![Reply::Begin, seen(1), seen((1 << 20) - 24)]);
        assert_eq!(asked.len(), 2);
        assert_eq!(
            error_of(end),
            (
                Status::InvalidArg,
                format!("total input size 1.0 MiB exceeds limit {text} MiB")
            )
        );
    }
    let opts = CreateArchiveOptions {
        out_path: "/tmp/o.rar".to_string(),
        entries: vec![EntryInput {
            kind: "bytes".to_string(),
            path: None,
            name: Some("a".to_string()),
            data: Some(vec![1, 2, 3]),
        }],
        max_total_bytes: Some(-1),
        ..create_options()
    };
    let unseen = || Reply::Inspected(vec![Err(String::new())]);
    let (asked, end) = talk_create(opts, false, vec![Reply::Begin, unseen(), unseen()]);
    assert_eq!(asked.len(), 2);
    assert_eq!(
        error_of(end),
        (
            Status::InvalidArg,
            "total input size 0.0 MiB exceeds limit -0.0 MiB".to_string()
        )
    );
}

#[test]
fn a_limit_of_zero_takes_empty_jobs_only() {
    let opts = |data: Vec<u8>| CreateArchiveOptions {
        entries: vec![EntryInput {
            kind: "bytes".to_string(),
            path: None,
            name: Some("a".to_string()),
            data: Some(data),
        }],
        max_total_bytes: Some(0),
        ..create_options()
    };
    let replies = || vec![
        Reply::Begin,
        Reply::Inspected(vec![Err(String::new())]),
        Reply::Inspected(vec![Err(String::new())]),
    ];
    let (asked, end) = talk_create(opts(vec![]), false, replies());
    assert_eq!(asked.len(), 3);
    assert!(end.is_none());
    let (asked, end) = talk_create(opts(vec![1]), false, replies());
    assert_eq!(asked.len(), 2);
    assert_eq!(error_of(end).0, Status::InvalidArg);
}

#[test]
fn creating_refuses_a_bad_dictionary_before_it_creates_the_archive() {
    let opts = CreateArchiveOptions { dict_size: Some("3m".to_string()), ..create_options() };
    let replies = vec![Reply::Begin, seen(1), seen(1), done(), Reply::Acknowledged];
    let (asked, end) = talk_create(opts, true, replies);
    assert_eq!(asked[3], text(Request::SetThreads(2)));
    assert_eq!(asked.len(), 4);
    assert_eq!(
        error_of(end),
        (
            Status::InvalidArg,
            "dictionary sizes up to 4 GiB must be powers of two: 3m".to_string()
        )
    );
}

#[test]
fn creating_passes_on_what_goes_wrong() {
    let start = || vec![Reply::Begin, seen(1), seen(1)];
    let mut replies = start();
    replies.push(failed("denied"));
    let (_, end) = talk_create(create_options(), true, replies);
    assert_eq!(error_of(end), (Status::GenericFailure, "mkdir: denied".to_string()));

    for good in 0..3usize {
        let mut replies = start();
        replies.push(done());
        replies.push(Reply::Acknowledged);
        for _ in 0..good {
            replies.push(done());
        }
        replies.push(failed("disk full"));
        let (_, end) = talk_create(create_options(), true, replies);
        assert_eq!(error_of(end), (Status::GenericFailure, "rar5: disk full".to_string()));
    }
}

#[test]
fn creating_passes_on_a_file_that_vanished() {
    let gone = Reply::Inspected(vec![Err("gone".to_string()), Err(String::new()), Err(String::new())]);
    let (_, end) = talk_create(create_options(), true, vec![Reply::Begin, seen(1), gone]);
    assert_eq!(error_of(end), (Status::GenericFailure, "stat src/a.txt: gone".to_string()));
}

#[test]
fn creating_ends_on_a_reply_that_is_none() {
    let unexpected = (Status::GenericFailure, "unexpected reply".to_string());
    let (_, end) = talk_create(create_options(), true, vec![done()]);
    assert_eq!(error_of(end), unexpected);
    let (_, end) = talk_create(create_options(), true, vec![Reply::Begin, Reply::Inspected(vec![])]);
    assert_eq!(error_of(end), unexpected);
    let (_, end) =
        talk_create(create_options(), true, vec![Reply::Begin, seen(1), Reply::Inspected(vec![])]);
    assert_eq!(error_of(end), unexpected);
    let (_, end) =
        talk_create(create_options(), true, vec![Reply::Begin, seen(1), seen(1), Reply::Acknowledged]);
    assert_eq!(error_of(end), unexpected);
}

#[test]
fn appending_asks_for_one_thing_after_the_other() {
    let replies = vec![
        Reply::Begin,
        seen(76),
        seen(76),
        done(),
        Reply::Acknowledged,
        done(),
        done(),
        Reply::Acknowledged,
        Reply::Texts(vec!["y.rar".to_string(), "y.rar".to_string()]),
    ];
    let (asked, end) = talk_append(append_options(), true, replies);
    assert_eq!(asked.len(), 8);
    assert_eq!(
        asked[2],
        text(Request::OpenAppend { path: "y.rar".to_string(), password: None })
    );
    assert_eq!(
        asked[3],
        text(Request::SetDictionary { size_log: None, size_bytes: Some(5368709120) })
    );
    assert_eq!(
        asked[4],
        text(Request::AddBatch { entries: batch(3), total_bytes: 100, progress: true })
    );
    assert_eq!(asked[5], text(Request::Close));
    assert_eq!(asked[6], text(Request::Notify(ProgressData { done: 100, total: 100 })));
    assert_eq!(asked[7], text(Request::DiscoverVolumes("y.rar".to_string())));
    assert_eq!(files_of(end), vec!["y.rar"]);
}

#[test]
fn appending_opens_with_the_password() {
    let opts = AppendArchiveOptions { password: Some("pw".to_string()), ..append_options() };
    let (asked, _) = talk_append(opts, false, vec![Reply::Begin, seen(1), seen(1)]);
    assert_eq!(
        asked[2],
        text(Request::OpenAppend { path: "y.rar".to_string(), password: Some("pw".to_string()) })
    );
    let opts = AppendArchiveOptions { password: Some(String::new()), ..append_options() };
    let (asked, _) = talk_append(opts, false, vec![Reply::Begin, seen(1), seen(1)]);
    assert_eq!(
        asked[2],
        text(Request::OpenAppend { path: "y.rar".to_string(), password: None })
    );
}

#[test]
fn appending_refuses_before_it_opens_the_archive() {
    let gone = Reply::Inspected(vec![Err("gone".to_string()), meta(false, 0), Err(String::new())]);
    let (asked, end) = talk_append(append_options(), true, vec![Reply::Begin, gone]);
    assert_eq!(asked.len(), 1);
    assert_eq!(error_of(end), (Status::InvalidArg, "cannot stat src/a.txt: gone".to_string()));

    let (asked, end) =
        talk_append(append_options(), true, vec![Reply::Begin, seen(1), seen(MAX_TOTAL_BYTES)]);
    assert_eq!(asked.len(), 2);
    assert_eq!(
        error_of(end),
        (Status::InvalidArg, "total input size exceeds 32 GiB limit".to_string())
    );

    let opts = AppendArchiveOptions { dict_size: Some("0".to_string()), ..append_options() };
    let (asked, end) = talk_append(opts, true, vec![Reply::Begin, seen(1), seen(1)]);
    assert_eq!(asked.len(), 2);
    assert_eq!(error_of(end), (Status::InvalidArg, "invalid dictionary size: 0".to_string()));
}

#[test]
fn appending_passes_on_what_goes_wrong() {
    let opened = || vec![Reply::Begin, seen(1), seen(1)];
    let mut replies = opened();
    replies.push(failed("no archive"));
    let (_, end) = talk_append(append_options(), true, replies);
    assert_eq!(error_of(end), (Status::GenericFailure, "rar5: no archive".to_string()));
    for good in 0..2usize {
        let mut replies = opened();
        replies.push(done());
        replies.push(Reply::Acknowledged);
        for _ in 0..good {
            replies.push(done());
        }
        replies.push(failed("disk full"));
        let (_, end) = talk_append(append_options(), true, replies);
        assert_eq!(error_of(end), (Status::GenericFailure, "rar5: disk full".to_string()));
    }
}

#[test]
fn appending_ends_on_a_reply_that_is_none() {
    let (_, end) = talk_append(append_options(), true, vec![Reply::Begin, Reply::Begin]);
    assert_eq!(error_of(end), (Status::GenericFailure, "unexpected reply".to_string()));
    let (_, end) =
        talk_append(append_options(), true, vec![Reply::Begin, seen(1), seen(1), done(), done()]);
    assert_eq!(error_of(end), (Status::GenericFailure, "unexpected reply".to_string()));
}
