use smart_archive_rar::progress::{completed, ProgressData, ProgressMeter};
use smart_archive_rar::volumes::list_files;

#[test]
fn members_add_up_to_the_whole() {
    let mut meter = ProgressMeter::new(100);
    let events = [0u64, 10, 40, 0, 0, 25, 60];
    let expected = [0u64, 10, 40, 40, 40, 65, 100];
    for (event, done) in events.into_iter().zip(expected) {
        assert_eq!(meter.record(event), ProgressData { done, total: 100 });
    }
}

#[test]
fn a_member_counts_once_even_where_it_starts_below_the_last() {
    let mut meter = ProgressMeter::new(1000);
    meter.record(0);
    meter.record(300);
    meter.record(0);
    assert_eq!(meter.record(200).done, 500);
    assert_eq!(meter.counted, 500);
    assert_eq!(meter.last, 200);
}

#[test]
fn repeated_or_falling_counts_add_nothing() {
    let mut meter = ProgressMeter::new(1000);
    assert_eq!(meter.record(50).done, 50);
    assert_eq!(meter.record(50).done, 50);
    assert_eq!(meter.record(20).done, 50);
    assert_eq!(meter.record(30).done, 60);
}

#[test]
fn reports_never_exceed_the_total() {
    let mut meter = ProgressMeter::new(10);
    assert_eq!(meter.record(25), ProgressData { done: 10, total: 10 });
    assert_eq!(meter.counted, 25);
    let mut nothing = ProgressMeter::new(0);
    assert_eq!(nothing.record(5), ProgressData { done: 0, total: 0 });
}

#[test]
fn counts_wrap_around_at_64_bits() {
    let mut meter = ProgressMeter::new(u64::MAX);
    assert_eq!(meter.record(u64::MAX).done, u64::MAX);
    meter.record(0);
    assert_eq!(meter.record(3).done, 2);
}

#[test]
fn the_last_report_is_the_whole() {
    assert_eq!(completed(42), ProgressData { done: 42, total: 42 });
}

fn texts(list: &[&str]) -> Vec<String> {
    list.iter().map(|s| s.to_string()).collect()
}

#[test]
fn files_are_listed_once_in_order() {
    let found = texts(&["a.part2.rar", "a.part10.rar", "a.part1.rar", "a.part2.rar"]);
    assert_eq!(list_files(found), texts(&["a.part1.rar", "a.part10.rar", "a.part2.rar"]));
    assert_eq!(list_files(Vec::new()), Vec::<String>::new());
    assert_eq!(list_files(texts(&["x"])), texts(&["x"]));
}

#[test]
fn lists_are_what_sorting_and_dropping_repeats_gives() {
    let letters = ["", "a", "b", "B", "ab", "\u{e9}", "\u{1f600}", "\u{fffd}"];
    let mut n: u64 = 3;
    for len in 0..40usize {
        let mut found = Vec::new();
        for i in 0..len as u64 {
            n = n.wrapping_mul(6364136223846793005).wrapping_add(2 * i + 1);
            let one = letters[(n >> 33) as usize % letters.len()];
            let two = letters[(n >> 43) as usize % letters.len()];
            found.push(format!("{one}{two}"));
        }
        let mut expected = found.clone();
        expected.sort();
        expected.dedup();
        assert_eq!(list_files(found), expected);
    }
}
