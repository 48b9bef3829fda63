use axiomkit_io_fs::{ReportCopy, ReportCopyBuilder};

fn lookup(dict_counts: &[(String, u64)], key: &str) -> u64 {
    dict_counts.iter().find(|(k, _)| k == key).map(|(_, v)| *v).expect("counter present")
}

#[test]
fn report_copy_to_dict_and_format_match_python_style() {
    let report = ReportCopy {
        cnt_matched: 5,
        cnt_scanned: 8,
        cnt_copied: 3,
        cnt_skipped: 2,
        warnings: vec!["w".to_string()],
        errors: vec![],
    };

    let dict_counts = report.to_dict();
    assert_eq!(lookup(&dict_counts, "cnt_matched"), 5);
    assert_eq!(lookup(&dict_counts, "cnt_scanned"), 8);
    assert_eq!(lookup(&dict_counts, "cnt_copied"), 3);
    assert_eq!(lookup(&dict_counts, "cnt_skipped"), 2);
    assert_eq!(lookup(&dict_counts, "cnt_errors"), 0);
    assert_eq!(lookup(&dict_counts, "cnt_warnings"), 1);

    let txt = report.format("[COPY]");
    assert_eq!(
        txt,
        "[COPY] matched=5 scanned=8 copied=3 skipped=2 errors=0 warnings=1"
    );
    assert_eq!(report.to_string(), txt);
}

#[test]
fn report_format_renders_large_and_zero_counters() {
    let report = ReportCopy {
        cnt_matched: 0,
        cnt_scanned: 1234567890,
        cnt_copied: u64::MAX,
        cnt_skipped: 10,
        warnings: vec![],
        errors: vec![],
    };
    assert_eq!(
        report.format(">"),
        "> matched=0 scanned=1234567890 copied=18446744073709551615 skipped=10 errors=0 warnings=0"
    );
}

#[test]
fn builder_add_counts_counts_each_name_and_ignores_unknown() {
    let mut b = ReportCopyBuilder::new();
    b.add_counts(&["cnt_scanned", "cnt_matched", "cnt_scanned", "bogus"], 3);
    assert_eq!(b.cnt_scanned, 6);
    assert_eq!(b.cnt_matched, 3);
    assert_eq!(b.cnt_copied, 0);
    assert_eq!(b.cnt_skipped, 0);
    b.add_counts(&["cnt_copied", "cnt_skipped"], 1);
    assert_eq!(b.cnt_copied, 1);
    assert_eq!(b.cnt_skipped, 1);
}

#[test]
fn builder_records_and_builds() {
    let mut b = ReportCopyBuilder::new();
    b.add_scanned();
    b.add_matched();
    b.add_copied();
    b.add_skipped();
    b.add_warning("careful".to_string());
    b.add_error("/x/y".to_string(), "boom".to_string());
    let r = b.build();
    assert_eq!((r.cnt_scanned, r.cnt_matched, r.cnt_copied, r.cnt_skipped), (1, 1, 1, 1));
    assert_eq!(r.warning_count(), 1);
    assert_eq!(r.error_count(), 1);
    assert_eq!(r.errors[0].path, "/x/y");
    assert_eq!(r.errors[0].exception, "boom");
    assert_eq!(r.to_string(), "[COPY] matched=1 scanned=1 copied=1 skipped=1 errors=1 warnings=1");
}
