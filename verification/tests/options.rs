use smart_archive_rar::options::{
    pick_dict, pick_dict_limit, pick_level, pick_password, pick_recovery, pick_recovery_volumes,
    pick_threads, settle_create, settle_extract, to_unsigned, to_unsigned_option,
};
use smart_archive_rar::{CreateArchiveOptions, EntryInput, ExtractArchiveOptions};

fn plain() -> CreateArchiveOptions {
    CreateArchiveOptions {
        out_path: "out.rar".to_string(),
        entries: Vec::new(),
        level: None,
        password: None,
        encrypt_headers: None,
        recovery_percent: None,
        recovery_volume_count: None,
        volume_size: None,
        max_total_bytes: None,
        dict_size: None,
        solid: None,
        quick_open: None,
        blake2: None,
        threads: None,
        save_ctime: None,
        save_atime: None,
        time_precision_seconds: None,
        save_owner: None,
        save_streams: None,
    }
}

#[test]
fn levels_are_3_by_default_and_5_at_most() {
    assert_eq!(pick_level(None), 3);
    for level in 0..=5u32 {
        assert_eq!(pick_level(Some(level)), level as u8);
    }
    assert_eq!(pick_level(Some(6)), 5);
    assert_eq!(pick_level(Some(256)), 5);
    assert_eq!(pick_level(Some(u32::MAX)), 5);
}

#[test]
fn threads_are_from_1_to_64() {
    assert_eq!(pick_threads(None), None);
    assert_eq!(pick_threads(Some(0)), Some(1));
    assert_eq!(pick_threads(Some(1)), Some(1));
    assert_eq!(pick_threads(Some(17)), Some(17));
    assert_eq!(pick_threads(Some(64)), Some(64));
    assert_eq!(pick_threads(Some(65)), Some(64));
    assert_eq!(pick_threads(Some(u32::MAX)), Some(64));
}

#[test]
fn recovery_records_protect_100_percent_at_most() {
    assert_eq!(pick_recovery(None), None);
    assert_eq!(pick_recovery(Some(0)), None);
    assert_eq!(pick_recovery(Some(1)), Some(1));
    assert_eq!(pick_recovery(Some(100)), Some(100));
    assert_eq!(pick_recovery(Some(255)), Some(100));
}

#[test]
fn zero_recovery_volumes_are_none() {
    assert_eq!(pick_recovery_volumes(None), None);
    assert_eq!(pick_recovery_volumes(Some(0)), None);
    assert_eq!(pick_recovery_volumes(Some(7)), Some(7));
}

#[test]
fn empty_passwords_are_none() {
    assert_eq!(pick_password(None), None);
    assert_eq!(pick_password(Some(String::new())), None);
    assert_eq!(pick_password(Some(" ".to_string())), Some(" ".to_string()));
    assert_eq!(pick_password(Some("pw".to_string())), Some("pw".to_string()));
}

#[test]
fn negative_byte_counts_wrap_around() {
    assert_eq!(to_unsigned(5), 5);
    assert_eq!(to_unsigned(i64::MAX), 9223372036854775807);
    assert_eq!(to_unsigned(-1), u64::MAX);
    assert_eq!(to_unsigned(i64::MIN), 9223372036854775808);
    assert_eq!(to_unsigned_option(None), None);
    assert_eq!(to_unsigned_option(Some(-2)), Some(u64::MAX - 1));
}

#[test]
fn dictionaries_are_unset_by_default() {
    assert!(matches!(pick_dict(None), Ok((None, None))));
    assert!(matches!(pick_dict(Some("1g".to_string())), Ok((Some(13), None))));
    assert!(matches!(pick_dict(Some("6g".to_string())), Ok((None, Some(6442450944)))));
    assert!(pick_dict(Some("nil".to_string())).is_err());
}

#[test]
fn extraction_takes_dictionaries_of_4_gib_by_default() {
    assert_eq!(pick_dict_limit(None), Some(4294967296));
    assert_eq!(pick_dict_limit(Some(0)), None);
    assert_eq!(pick_dict_limit(Some(1 << 20)), Some(1048576));
    assert_eq!(pick_dict_limit(Some(1)), Some(1));
    assert_eq!(pick_dict_limit(Some(i64::MAX)), Some(9223372036854775807));
    assert_eq!(pick_dict_limit(Some(-1)), Some(0));
    assert_eq!(pick_dict_limit(Some(i64::MIN)), Some(0));
}

#[test]
fn a_plain_request_sets_nothing_but_modification_times() {
    let (entries, settings) = settle_create(plain());
    assert!(entries.is_empty());
    assert_eq!(settings.out_path, "out.rar");
    assert_eq!(settings.limit, None);
    assert_eq!(settings.level, 3);
    assert_eq!(settings.threads, None);
    match settings.options {
        Ok(o) => {
            assert!(o.save_mtime);
            let switches = [
                o.solid, o.quick_open, o.blake2, o.encrypt_headers, o.save_ctime, o.save_atime,
                o.time_precision_seconds, o.save_owner, o.save_streams,
            ];
            assert_eq!(switches, [false; 9]);
            assert_eq!(o.password, None);
            assert_eq!(o.recovery_percent, None);
            assert_eq!(o.recovery_volumes_percent, None);
            assert_eq!(o.recovery_volume_count, None);
            assert_eq!(o.volume_size, None);
            assert_eq!(o.dict_size_log, None);
            assert_eq!(o.dict_size_bytes, None);
        }
        Err(e) => panic!("{e:?}"),
    }
}

#[test]
fn each_switch_turns_on_its_own_option() {
    for at in 0..9usize {
        let on = |i: usize| if i == at { Some(true) } else { Some(false) };
        let opts = CreateArchiveOptions {
            solid: on(0),
            quick_open: on(1),
            blake2: on(2),
            encrypt_headers: on(3),
            save_ctime: on(4),
            save_atime: on(5),
            time_precision_seconds: on(6),
            save_owner: on(7),
            save_streams: on(8),
            ..plain()
        };
        match settle_create(opts).1.options {
            Ok(o) => {
                let switches = [
                    o.solid, o.quick_open, o.blake2, o.encrypt_headers, o.save_ctime, o.save_atime,
                    o.time_precision_seconds, o.save_owner, o.save_streams,
                ];
                for i in 0..9usize {
                    assert_eq!(switches[i], i == at);
                }
            }
            Err(e) => panic!("{e:?}"),
        }
    }
}

#[test]
fn a_full_request_is_settled_value_by_value() {
    let opts = CreateArchiveOptions {
        out_path: "d/full.rar".to_string(),
        entries: vec![EntryInput {
            kind: "dir".to_string(),
            path: Some("d".to_string()),
            name: None,
            data: None,
        }],
        level: Some(9),
        password: Some("pw".to_string()),
        recovery_percent: Some(200),
        recovery_volume_count: Some(3),
        volume_size: Some(1 << 20),
        max_total_bytes: Some(77),
        dict_size: Some("512k".to_string()),
        threads: Some(100),
        ..plain()
    };
    let (entries, settings) = settle_create(opts);
    assert_eq!(entries.len(), 1);
    assert_eq!(entries[0].path.as_deref(), Some("d"));
    assert_eq!(settings.out_path, "d/full.rar");
    assert_eq!(settings.limit, Some(77));
    assert_eq!(settings.level, 5);
    assert_eq!(settings.threads, Some(64));
    match settings.options {
        Ok(o) => {
            let again = o.duplicate();
            assert_eq!(format!("{o:?}"), format!("{again:?}"));
            assert_eq!(o.password.as_deref(), Some("pw"));
            assert_eq!(o.recovery_percent, Some(100));
            assert_eq!(o.recovery_volume_count, Some(3));
            assert_eq!(o.volume_size, Some(1048576));
            assert_eq!(o.dict_size_log, Some(2));
            assert_eq!(o.dict_size_bytes, None);
        }
        Err(e) => panic!("{e:?}"),
    }
}

#[test]
fn only_the_dictionary_size_can_be_wrong() {
    let (_, settings) = settle_create(CreateArchiveOptions {
        dict_size: Some("3m".to_string()),
        ..plain()
    });
    match settings.options {
        Err(e) => {
            assert_eq!(e.reason, "dictionary sizes up to 4 GiB must be powers of two: 3m")
        }
        Ok(o) => panic!("{o:?}"),
    }
}

#[test]
fn extractions_have_no_limit_but_the_dictionary() {
    let opts = ExtractArchiveOptions {
        dest_path: "d".to_string(),
        password: None,
        flat: None,
        max_dict_size: None,
    };
    let o = settle_extract(&opts);
    assert!(!o.flat_paths);
    assert_eq!(o.max_unpacked_bytes, None);
    assert_eq!(o.max_total_unpacked_bytes, None);
    assert_eq!(o.max_dict_size, Some(4294967296));
    let flat = settle_extract(&ExtractArchiveOptions { flat: Some(true), max_dict_size: Some(0), ..opts });
    assert!(flat.flat_paths);
    assert_eq!(flat.max_dict_size, None);
}
