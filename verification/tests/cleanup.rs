use hyprs_log::cleanup::date::{modified_date_of, parse_ymd, Date};
use hyprs_log::cleanup::options::CleanupOptions;
use hyprs_log::cleanup::order::oldest_first_order;
use hyprs_log::cleanup::plan::FileOutcome;
use hyprs_log::cleanup::result::CleanupResult;
use hyprs_log::cleanup::scan::{file_info, scan_entry, ScanStep};
use hyprs_log::cleanup::run::{
    apply_first_pass, apply_size_pass, dry_run_cleanup, plan_cleanup, size_pass_victims,
};
use hyprs_log::cleanup::size::{format_size, split_size_suffix};
use hyprs_log::cleanup::stats::{stats_of, LogFileInfo};
use hyprs_log::logger::Logger;

fn file(path: &str, size: u64, age: u64) -> LogFileInfo {
    LogFileInfo { path: path.to_string(), size, age_days: age, modified_date: None }
}

fn sample() -> Vec<LogFileInfo> {
    vec![
        file("a.log", 100, 10),
        file("b.log", 200, 40),
        file("c.log", 50, 40),
        file("d.log", 10, 2),
    ]
}

fn float_size(b: u64) -> String {
    let f = b as f64;
    if b >= 1024 * 1024 * 1024 {
        format!("{:.2} GB", f / (1024.0 * 1024.0 * 1024.0))
    } else if b >= 1024 * 1024 {
        format!("{:.2} MB", f / (1024.0 * 1024.0))
    } else if b >= 1024 {
        format!("{:.2} KB", f / 1024.0)
    } else {
        format!("{b} B")
    }
}

#[test]
fn format_size_matches_float_formatting() {
    let samples: [u64; 22] = [
        0,
        1,
        512,
        1023,
        1024,
        1029,
        1030,
        1152,
        1536,
        1_048_575,
        1_048_576,
        1_572_864,
        123_456_789,
        1_073_741_823,
        1_073_741_824,
        5_000_000_000,
        1_610_612_736,
        9_007_199_254_740_993,
        18_014_398_509_481_985,
        1 << 62,
        u64::MAX - 1,
        u64::MAX,
    ];
    for b in samples {
        assert_eq!(format_size(b), float_size(b), "bytes = {b}");
    }
}

#[test]
fn format_size_examples() {
    assert_eq!(format_size(512), "512 B");
    assert_eq!(format_size(1536), "1.50 KB");
    assert_eq!(format_size(1_073_741_824), "1.00 GB");
}

#[test]
fn size_suffixes_split() {
    assert_eq!(split_size_suffix(" 500m "), ("500".to_string(), 1_048_576));
    assert_eq!(split_size_suffix("1.5GB"), ("1.5".to_string(), 1_073_741_824));
    assert_eq!(split_size_suffix("10KB"), ("10".to_string(), 1024));
    assert_eq!(split_size_suffix("2 g"), ("2".to_string(), 1_073_741_824));
    assert_eq!(split_size_suffix("42"), ("42".to_string(), 1));
}

#[test]
fn oldest_first_is_stable() {
    assert_eq!(oldest_first_order(&vec![3, 5, 5, 1]), vec![1, 2, 0, 3]);
    assert_eq!(oldest_first_order(&vec![]), Vec::<usize>::new());
    assert_eq!(oldest_first_order(&vec![7, 7, 7]), vec![0, 1, 2]);
}

#[test]
fn plan_protects_newest_and_selects_old() {
    let files = sample();
    let opts = CleanupOptions::new().max_age_days(30).keep_last(1).dry_run(true);
    let plan = plan_cleanup(&files, &opts);
    assert_eq!(plan.order, vec![1, 2, 0, 3]);
    assert_eq!(plan.protected, vec!["d.log".to_string()]);
    assert_eq!(plan.process, vec![1, 2]);
}

#[test]
fn dry_run_lists_old_files() {
    let files = sample();
    let opts = CleanupOptions::new().max_age_days(30).keep_last(1).dry_run(true);
    let r = dry_run_cleanup(&files, &opts);
    assert_eq!(r.would_delete, vec!["b.log".to_string(), "c.log".to_string()]);
    assert_eq!(r.would_free, 250);
    assert!(r.deleted.is_empty());
    assert_eq!(r.count(), 2);
    assert_eq!(r.bytes(), 250);
}

#[test]
fn dry_run_size_limit_evicts_until_it_fits() {
    let files = sample();
    let opts = CleanupOptions::new()
        .max_age_days(30)
        .keep_last(1)
        .max_total_size_bytes(50)
        .dry_run(true);
    let r = dry_run_cleanup(&files, &opts);
    assert_eq!(
        r.would_delete,
        vec!["b.log".to_string(), "c.log".to_string(), "a.log".to_string()]
    );
    assert_eq!(r.would_free, 350);
}

#[test]
fn dry_run_compress_estimates_half() {
    let files = sample();
    let opts = CleanupOptions::new().delete_all(true).compress(true).dry_run(true);
    let r = dry_run_cleanup(&files, &opts);
    assert_eq!(r.would_compress.len(), 4);
    assert_eq!(r.would_compress[0], "b.log");
    assert_eq!(r.would_compress_save, 50 + 100 + 25 + 5);
    assert_eq!(r.compressed_count(), 4);
    assert_eq!(r.compressed_bytes(), 180);
}

#[test]
fn no_filter_means_no_action() {
    let files = sample();
    let opts = CleanupOptions::new().keep_last(1).dry_run(true);
    let r = dry_run_cleanup(&files, &opts);
    assert!(r.would_delete.is_empty());
    assert!(r.would_compress.is_empty());
    assert_eq!(r.would_free, 0);
}

#[test]
fn protected_files_survive_delete_all() {
    let files = sample();
    let opts = CleanupOptions::new().delete_all(true).keep_last(2).dry_run(true);
    let r = dry_run_cleanup(&files, &opts);
    assert_eq!(r.would_delete, vec!["b.log".to_string(), "c.log".to_string()]);
}

#[test]
fn real_run_records_outcomes_and_evicts() {
    let files = sample();
    let opts = CleanupOptions::new().max_age_days(30).keep_last(1).max_total_size_bytes(50);
    let plan = plan_cleanup(&files, &opts);
    let outcomes = vec![FileOutcome::Removed, FileOutcome::NotRemoved("busy".to_string())];
    let mut r = apply_first_pass(&files, &opts, &plan.process, &outcomes);
    assert_eq!(r.deleted, vec!["b.log".to_string()]);
    assert_eq!(r.freed, 200);
    assert_eq!(r.failed, vec![("c.log".to_string(), "busy".to_string())]);
    let victims = size_pass_victims(&files, &opts, &r, 50);
    // c.log is still on disk, so the size pass counts it, oldest first.
    assert_eq!(victims, vec![2, 0]);
    apply_size_pass(&mut r, &files, &victims, &vec![FileOutcome::Removed, FileOutcome::Removed], false);
    assert_eq!(r.deleted, vec!["b.log".to_string(), "c.log".to_string(), "a.log".to_string()]);
    assert_eq!(r.freed, 350);
}

#[test]
fn size_limit_evicts_oldest_first() {
    let files = vec![file("new.log", 10, 1), file("old.log", 10, 10)];
    let opts = CleanupOptions::new().max_total_size_bytes(10).dry_run(true);
    let r = dry_run_cleanup(&files, &opts);
    assert_eq!(r.would_delete, vec!["old.log".to_string()]);
    let opts = CleanupOptions::new().max_total_size_bytes(10);
    let plan = plan_cleanup(&files, &opts);
    let mut r = apply_first_pass(&files, &opts, &plan.process, &vec![]);
    let victims = size_pass_victims(&files, &opts, &r, 10);
    assert_eq!(victims, vec![1]);
    apply_size_pass(&mut r, &files, &victims, &vec![FileOutcome::NotRemoved("denied".to_string())], false);
    assert!(r.deleted.is_empty());
    assert_eq!(r.freed, 0);
    assert_eq!(r.failed, vec![("old.log".to_string(), "denied".to_string())]);
}

#[test]
fn compress_failures_are_listed() {
    let files = sample();
    let opts = CleanupOptions::new().max_age_days(30).compress(true);
    let plan = plan_cleanup(&files, &opts);
    let outcomes = vec![FileOutcome::Compressed(150), FileOutcome::CompressFailed("denied".to_string())];
    let r = apply_first_pass(&files, &opts, &plan.process, &outcomes);
    assert_eq!(r.compressed, vec!["b.log".to_string()]);
    assert_eq!(r.compressed_saved, 150);
    assert_eq!(r.failed, vec![("c.log".to_string(), "denied".to_string())]);
}

#[test]
fn dates_filter_files() {
    let mut files = sample();
    files[0].modified_date = Some(Date { year: 2024, month: 1, day: 5 });
    files[3].modified_date = Some(Date { year: 2024, month: 3, day: 1 });
    let before = parse_ymd("2024-02-01").unwrap();
    let opts = CleanupOptions::new().before_date(before).dry_run(true);
    let r = dry_run_cleanup(&files, &opts);
    assert_eq!(r.would_delete, vec!["a.log".to_string()]);
    let opts = CleanupOptions::new().after_date(before).dry_run(true);
    let r = dry_run_cleanup(&files, &opts);
    assert_eq!(r.would_delete, vec!["d.log".to_string()]);
}

#[test]
fn dates_parse_and_convert() {
    assert_eq!(parse_ymd("2024-01-15"), Some(Date { year: 2024, month: 1, day: 15 }));
    assert_eq!(parse_ymd("2024-13-01"), None);
    assert_eq!(parse_ymd("yesterday"), None);
    assert_eq!(modified_date_of(0), Some(Date { year: 1970, month: 1, day: 1 }));
    assert_eq!(modified_date_of(1_431_648_000), Some(Date { year: 2015, month: 5, day: 15 }));
    assert!(Date { year: 2023, month: 12, day: 31 }.is_before(&Date { year: 2024, month: 1, day: 1 }));
    assert!(!Date { year: 2024, month: 1, day: 1 }.is_before(&Date { year: 2024, month: 1, day: 1 }));
}

#[test]
fn stats_summary() {
    let s = stats_of(sample());
    assert_eq!(s.total_files, 4);
    assert_eq!(s.total_size, 360);
    assert_eq!(s.oldest_file.as_deref(), Some("c.log"));
    assert_eq!(s.newest_file.as_deref(), Some("d.log"));
    let empty = stats_of(Vec::new());
    assert_eq!(empty.total_files, 0);
    assert_eq!(empty.oldest_file, None);
}

#[test]
fn stats_report_lines() {
    let logger = Logger::builder().build();
    let s = stats_of(vec![file("a.log", 1536, 0), file("b.log", 10, 1), file("c.log", 10, 5)]);
    let lines: Vec<(String, String, bool)> =
        s.log(&logger).into_iter().map(|r| (r.scope, r.message, r.raw)).collect();
    assert_eq!(
        lines,
        vec![
            ("STATS".to_string(), "Total files: 3".to_string(), false),
            ("STATS".to_string(), "Total size:  1.52 KB".to_string(), false),
            ("STATS".to_string(), "Oldest:      c.log".to_string(), false),
            ("STATS".to_string(), "Newest:      a.log".to_string(), false),
            ("STATS".to_string(), "Files:".to_string(), false),
            (String::new(), "  a.log (1.50 KB, today)".to_string(), true),
            (String::new(), "  b.log (10 B, 1 day)".to_string(), true),
            (String::new(), "  c.log (10 B, 5 days)".to_string(), true),
        ]
    );
}

#[test]
fn cleanup_report_lines() {
    let logger = Logger::builder().build();
    let files = sample();
    let opts = CleanupOptions::new().max_age_days(30).dry_run(true);
    let r = dry_run_cleanup(&files, &opts);
    let lines: Vec<String> = r.log(&logger, true).into_iter().map(|r| r.message).collect();
    assert_eq!(
        lines,
        vec![
            "Would delete 2 file(s), freeing 250 B".to_string(),
            "  b.log".to_string(),
            "  c.log".to_string(),
        ]
    );
    let nothing = CleanupResult::default();
    assert!(nothing.log(&logger, false).is_empty());
    let debug_logger = Logger::builder().level(hyprs_log::level::Level::Debug).build();
    let note: Vec<String> = nothing.log(&debug_logger, false).into_iter().map(|r| r.message).collect();
    assert_eq!(note, vec!["No files processed".to_string()]);
}

#[test]
fn scan_rules() {
    assert!(matches!(scan_entry(true, "2024", None), ScanStep::Descend(None)));
    assert!(matches!(scan_entry(true, "web", Some("web")), ScanStep::Descend(None)));
    match scan_entry(true, "api", Some("web")) {
        ScanStep::Descend(Some(f)) => assert_eq!(f, "web"),
        _ => panic!("expected to keep looking for web"),
    }
    assert!(matches!(scan_entry(false, "a.log", None), ScanStep::Record));
    assert!(matches!(scan_entry(false, "a.log", Some("web")), ScanStep::Skip));
    assert!(matches!(scan_entry(false, ".log", None), ScanStep::Skip));
    assert!(matches!(scan_entry(false, "a.log.gz", None), ScanStep::Skip));
    assert!(matches!(scan_entry(false, "a.LOG", None), ScanStep::Skip));
}

#[test]
fn file_records() {
    let f = file_info("/l/a.log".to_string(), 10, Some(3 * 86400 + 5), Some(1_700_000_000));
    assert_eq!(f.age_days, 3);
    assert_eq!(f.modified_date, Some(Date { year: 2023, month: 11, day: 14 }));
    let g = file_info("/l/b.log".to_string(), 1, None, Some(u64::MAX));
    assert_eq!(g.age_days, 0);
    assert_eq!(g.modified_date, None);
}

#[test]
fn timestamps_map_to_gregorian_days() {
    let d = |year, month, day| Some(Date { year, month, day });
    assert_eq!(modified_date_of(-1), d(1969, 12, 31));
    assert_eq!(modified_date_of(86_399), d(1970, 1, 1));
    assert_eq!(modified_date_of(86_400), d(1970, 1, 2));
    assert_eq!(modified_date_of(951_782_400), d(2000, 2, 29));
    assert_eq!(modified_date_of(951_868_800), d(2000, 3, 1));
    assert_eq!(modified_date_of(4_107_542_399), d(2100, 2, 28));
    assert_eq!(modified_date_of(4_107_542_400), d(2100, 3, 1));
    assert_eq!(modified_date_of(-62_135_596_800), d(1, 1, 1));
    assert_eq!(modified_date_of(-62_135_596_801), d(0, 12, 31));
    assert_eq!(modified_date_of(8_210_266_876_799), d(262_142, 12, 31));
    assert_eq!(modified_date_of(8_210_266_876_800), None);
    assert_eq!(modified_date_of(-8_334_601_228_800), d(-262_143, 1, 1));
    assert_eq!(modified_date_of(-8_334_601_228_801), None);
    assert_eq!(modified_date_of(i64::MAX), None);
    assert_eq!(modified_date_of(i64::MIN), None);
}
