use papertrail_logger::file_sink::{excess_files, oldest_beyond, would_exceed, FileSink};
use papertrail_logger::format::numbered_file_name;
use papertrail_logger::text::decimal_wide;

fn names(list: &[&str]) -> Vec<String> {
    list.iter().map(|s| s.to_string()).collect()
}

#[test]
fn new_sink_knows_the_seed_in_order() {
    let sink = FileSink::new(128, 3, names(&["a.log", "b.log"]));
    assert_eq!(sink.files(), names(&["a.log", "b.log"]));
    assert_eq!(sink.file_count(), 2);
    assert_eq!(sink.current_size(), 0);
    assert_eq!(sink.max_file_size(), 128);
    assert_eq!(sink.max_files(), 3);
    assert!(!sink.needs_rotation());
}

#[test]
fn rotation_is_due_only_above_the_threshold() {
    let mut sink = FileSink::new(128, 3, Vec::new());
    assert_eq!(sink.rotate("f1".to_string()), Vec::<String>::new());
    assert!(!sink.record_write(100));
    assert_eq!(sink.current_size(), 100);
    assert!(!sink.record_write(28));
    assert_eq!(sink.current_size(), 128);
    assert!(!sink.needs_rotation());
    assert!(sink.record_write(1));
    assert_eq!(sink.current_size(), 129);
    assert!(sink.needs_rotation());
}

#[test]
fn rotate_resets_size_and_appends_newest() {
    let mut sink = FileSink::new(10, 3, names(&["old.log"]));
    assert!(sink.rotate("f1".to_string()).is_empty());
    assert!(sink.record_write(11));
    assert!(sink.rotate("f2".to_string()).is_empty());
    assert_eq!(sink.current_size(), 0);
    assert!(!sink.needs_rotation());
    assert_eq!(sink.files(), names(&["old.log", "f1", "f2"]));
}

#[test]
fn rotate_retires_oldest_first() {
    let mut sink = FileSink::new(10, 2, names(&["a", "b", "c", "d"]));
    let retired = sink.rotate("e".to_string());
    assert_eq!(retired, names(&["a", "b", "c"]));
    assert_eq!(sink.files(), names(&["d", "e"]));
    let retired = sink.rotate("f".to_string());
    assert_eq!(retired, names(&["d"]));
    assert_eq!(sink.files(), names(&["e", "f"]));
}

#[test]
fn single_file_retention() {
    let mut sink = FileSink::new(10, 1, Vec::new());
    assert!(sink.rotate("a".to_string()).is_empty());
    assert_eq!(sink.rotate("b".to_string()), names(&["a"]));
    assert_eq!(sink.files(), names(&["b"]));
}

#[test]
fn zero_retention_keeps_nothing() {
    let mut sink = FileSink::new(10, 0, names(&["a"]));
    assert_eq!(sink.rotate("b".to_string()), names(&["a", "b"]));
    assert_eq!(sink.file_count(), 0);
}

#[test]
fn rotation_keeps_three_files() {
    let mut sink = FileSink::new(128, 3, Vec::new());
    let mut opened = 0usize;
    let mut deleted: Vec<String> = Vec::new();
    let mut lines = 0usize;
    let mut largest = 0u64;
    opened += 1;
    deleted.extend(sink.rotate(format!("log_{}.log", opened)));
    for _ in 0..10 {
        let line_len = 50u64;
        let due = sink.record_write(line_len);
        lines += 1;
        largest = largest.max(sink.current_size());
        if due {
            opened += 1;
            deleted.extend(sink.rotate(format!("log_{}.log", opened)));
        }
        assert!(sink.file_count() <= 3);
    }
    assert_eq!(lines, 10);
    assert_eq!(sink.file_count(), 3);
    assert_eq!(opened, 4);
    assert_eq!(deleted, names(&["log_1.log"]));
    assert_eq!(sink.files(), names(&["log_2.log", "log_3.log", "log_4.log"]));
    assert_eq!(sink.current_size(), 50);
    assert_eq!(largest, 150);
    assert!(largest <= 128 + 50);
}

#[test]
fn size_stays_within_threshold_plus_last_line() {
    let lens: [u64; 8] = [1, 200, 3, 64, 64, 1, 127, 2];
    let mut sink = FileSink::new(128, 2, Vec::new());
    sink.rotate("f0".to_string());
    for (i, len) in lens.iter().enumerate() {
        let due = sink.record_write(*len);
        assert!(sink.current_size() <= 128 + len);
        assert_eq!(due, sink.current_size() > 128);
        if due {
            sink.rotate(format!("f{}", i + 1));
        }
        assert!(sink.current_size() <= 128);
        assert!(sink.file_count() <= 2);
    }
}

#[test]
fn would_exceed_compares_the_sum() {
    assert!(!would_exceed(0, 10, 10));
    assert!(would_exceed(1, 10, 10));
    assert!(!would_exceed(0, 0, 0));
    assert!(would_exceed(usize::MAX, 1, u64::MAX - 1));
}

#[test]
fn excess_files_counts_what_is_beyond() {
    assert_eq!(excess_files(5, 3), 2);
    assert_eq!(excess_files(3, 3), 0);
    assert_eq!(excess_files(0, 3), 0);
    assert_eq!(excess_files(4, 0), 4);
}

#[test]
fn decimal_wide_numerals() {
    assert_eq!(decimal_wide(0), "0");
    assert_eq!(decimal_wide(9), "9");
    assert_eq!(decimal_wide(10), "10");
    assert_eq!(decimal_wide(1234567890), "1234567890");
    assert_eq!(decimal_wide(u128::MAX), format!("{}", u128::MAX));
}

#[test]
fn numbered_file_names() {
    assert_eq!(numbered_file_name("20240506T070809+0200", 0), "log_20240506T070809+0200.log");
    assert_eq!(numbered_file_name("20240506T070809+0200", 1), "log_20240506T070809+0200_1.log");
    assert_eq!(numbered_file_name("s", 12), "log_s_12.log");
}

#[test]
fn knows_its_files() {
    let sink = FileSink::new(10, 3, names(&["a.log", "b.log"]));
    assert!(sink.knows(&"a.log".to_string()));
    assert!(sink.knows(&"b.log".to_string()));
    assert!(!sink.knows(&"c.log".to_string()));
    assert!(!sink.knows(&"a.lo".to_string()));
}

#[test]
fn fresh_name_is_the_first_free_one() {
    let sink = FileSink::new(10, 9, Vec::new());
    assert_eq!(sink.fresh_name("s"), "log_s.log");
    let sink = FileSink::new(10, 9, names(&["log_s.log"]));
    assert_eq!(sink.fresh_name("s"), "log_s_1.log");
    assert_eq!(sink.fresh_name("t"), "log_t.log");
    let sink = FileSink::new(10, 9, names(&["log_s_1.log", "log_s.log", "log_s_3.log"]));
    assert_eq!(sink.fresh_name("s"), "log_s_2.log");
    let sink = FileSink::new(10, 9, names(&["log_s_1.log"]));
    assert_eq!(sink.fresh_name("s"), "log_s.log");
}

#[test]
fn rotations_within_one_second_open_distinct_files() {
    let mut sink = FileSink::new(10, 2, Vec::new());
    let first = sink.fresh_name("20240506T070809+0200");
    assert!(sink.rotate(first.clone()).is_empty());
    let second = sink.fresh_name("20240506T070809+0200");
    assert_ne!(first, second);
    assert!(sink.rotate(second.clone()).is_empty());
    assert_eq!(sink.files(), vec![first.clone(), second.clone()]);
    let third = sink.fresh_name("20240506T070809+0200");
    assert_eq!(sink.rotate(third.clone()), vec![first]);
    assert_eq!(sink.files(), vec![second, third]);
}

#[test]
fn single_file_rotated_twice_in_one_second_keeps_the_live_file() {
    let mut sink = FileSink::new(10, 1, Vec::new());
    let first = sink.fresh_name("x");
    sink.rotate(first.clone());
    let second = sink.fresh_name("x");
    let retired = sink.rotate(second.clone());
    assert_eq!(retired, vec![first]);
    assert_eq!(sink.files(), vec![second.clone()]);
    assert!(!retired.contains(&second));
}

#[test]
fn oldest_beyond_picks_the_oldest_first() {
    assert_eq!(oldest_beyond(&vec![5, 1, 3, 2], 2), vec![1, 3]);
    assert_eq!(oldest_beyond(&vec![5, 1, 3, 2], 0), vec![1, 3, 2, 0]);
    assert_eq!(oldest_beyond(&vec![5, 1, 3, 2], 4), Vec::<usize>::new());
    assert_eq!(oldest_beyond(&vec![5, 1, 3, 2], 9), Vec::<usize>::new());
    assert_eq!(oldest_beyond(&Vec::new(), 0), Vec::<usize>::new());
    assert_eq!(oldest_beyond(&vec![7, 7, 7], 1), vec![0, 1]);
    assert_eq!(oldest_beyond(&vec![9, 8], 1), vec![1]);
}
