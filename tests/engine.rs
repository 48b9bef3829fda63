use axiomkit_io_fs::{
    calculate_worker_limit, check_overlap, compile_patterns, derive_destination_path,
    is_depth_within_limit, path_display, should_skip_dir_conflict, validate_destination_path_safety,
    CopyTreeError, DestKind, DirAction, DirPlacement, DirStep, EnumCopyDepthLimitMode,
    EnumCopyDirectoryConflictStrategy, EnumCopyFileConflictStrategy, EnumCopyPatternMode,
    EnumCopySymlinkStrategy, FileAction, ProbeState, ReportCopyBuilder, SourceKind,
    SpecCopyContext, SpecCopyOptions, SpecCopyOutcome, SpecDirEntry, SpecFileEntry,
    SpecWalkStack, UnsafeDestination, WalkStep,
};

fn p(s: &str) -> Vec<String> {
    s.split('/').filter(|c| !c.is_empty()).map(|c| c.to_string()).collect()
}

fn file(path: &str) -> SpecFileEntry {
    let v = p(path);
    SpecFileEntry { name_file: v.last().unwrap().clone(), path_file_src: v, if_is_symlink: false }
}

fn dir(path: &str) -> SpecDirEntry {
    let v = p(path);
    SpecDirEntry { name_dir: v.last().unwrap().clone(), path_dir_src_sub: v, if_is_symlink: false }
}

fn clear_probes(ctx: &SpecCopyContext, dst: &[String]) -> Vec<ProbeState> {
    (ctx.path_dir_dst.len()..dst.len()).map(|_| ProbeState::Missing).collect()
}

fn ctx_with(options: SpecCopyOptions) -> SpecCopyContext {
    SpecCopyContext::new(p("/t/src"), p("/t/dst"), options, 4).ok().expect("context")
}

/// Runs the file steps with a clean destination; returns the action, if any.
fn plan_file(ctx: &mut SpecCopyContext, entry: &SpecFileEntry, depth: usize) -> Option<FileAction> {
    if !ctx.admit_file_entry(entry, depth) {
        return None;
    }
    if !ctx.inspect_file_entry(entry, true, SourceKind::Regular, false) {
        return None;
    }
    let dst = ctx.file_destination(entry);
    let probes = clear_probes(ctx, &dst);
    if !ctx.check_file_destination(&dst, &probes) {
        return None;
    }
    Some(ctx.commit_file_entry(entry, dst, DestKind::Missing))
}

#[test]
fn default_options_mirror_the_tree() {
    let mut ctx = ctx_with(SpecCopyOptions::default());
    for (d, depth) in [("/t/src/a", 0), ("/t/src/b", 0), ("/t/src/b/sub", 1)] {
        let e = dir(d);
        let step = ctx.begin_dir_entry(&e, depth, true);
        assert!(step == DirStep::Place(DirPlacement::Directory));
        let dst = ctx.dir_destination(&e, DirPlacement::Directory);
        let probes = clear_probes(&ctx, &dst);
        let action = ctx.settle_dir_entry(&dst, DirPlacement::Directory, &probes, DestKind::Missing);
        assert!(action == DirAction::MakeDir);
        assert!(ctx.finish_dir_action(&dst, action, Ok(())));
    }
    for (f, depth) in [("/t/src/root.txt", 0), ("/t/src/a/file1.txt", 1), ("/t/src/b/sub/file2.txt", 2)] {
        assert!(plan_file(&mut ctx, &file(f), depth) == Some(FileAction::Queued));
    }
    let tasks = ctx.take_tasks();
    let dsts: Vec<String> = tasks.iter().map(|t| path_display(&t.path_file_dst)).collect();
    assert_eq!(dsts, vec!["/t/dst/root.txt", "/t/dst/a/file1.txt", "/t/dst/b/sub/file2.txt"]);
    let outcomes = tasks
        .into_iter()
        .map(|t| SpecCopyOutcome { path_file_dst: t.path_file_dst, result: Ok(()) })
        .collect();
    ctx.record_copy_results(outcomes);
    let report = ctx.finish();
    assert_eq!(report.error_count(), 0);
    assert_eq!(report.cnt_copied, 6);
    assert_eq!(report.cnt_scanned, 6);
    assert_eq!(report.cnt_matched, 6);
}

#[test]
fn flatten_with_include_glob_keeps_only_txt_at_root() {
    let options = SpecCopyOptions {
        if_keep_tree: false,
        patterns_include_files: Some(vec!["*.txt".to_string()]),
        ..SpecCopyOptions::default()
    };
    let mut ctx = ctx_with(options);
    let step = ctx.begin_dir_entry(&dir("/t/src/a"), 0, true);
    assert!(step == DirStep::Done(true));
    assert!(plan_file(&mut ctx, &file("/t/src/a/file1.txt"), 1) == Some(FileAction::Queued));
    assert!(plan_file(&mut ctx, &file("/t/src/a/file1.md"), 1).is_none());
    let tasks = ctx.take_tasks();
    assert_eq!(tasks.len(), 1);
    assert_eq!(path_display(&tasks[0].path_file_dst), "/t/dst/file1.txt");
    let report = ctx.finish();
    assert_eq!(report.cnt_scanned, 2);
    assert_eq!(report.cnt_matched, 1);
}

#[test]
fn depth_exact_keeps_only_the_limit_depth() {
    let options = SpecCopyOptions {
        depth_limit: Some(1),
        rule_depth_limit: EnumCopyDepthLimitMode::Exact,
        ..SpecCopyOptions::default()
    };
    let mut ctx = ctx_with(options);
    assert!(plan_file(&mut ctx, &file("/t/src/root.txt"), 0).is_none());
    assert!(plan_file(&mut ctx, &file("/t/src/a/file1.txt"), 1) == Some(FileAction::Queued));
    let tasks = ctx.take_tasks();
    assert_eq!(tasks.len(), 1);
    assert_eq!(path_display(&tasks[0].path_file_dst), "/t/dst/a/file1.txt");
    assert_eq!(ctx.finish().cnt_scanned, 1);
}

#[test]
fn depth_rule_at_most_and_exact() {
    assert!(is_depth_within_limit(0, Some(1), EnumCopyDepthLimitMode::AtMost));
    assert!(is_depth_within_limit(1, Some(1), EnumCopyDepthLimitMode::AtMost));
    assert!(!is_depth_within_limit(2, Some(1), EnumCopyDepthLimitMode::AtMost));
    assert!(!is_depth_within_limit(0, Some(1), EnumCopyDepthLimitMode::Exact));
    assert!(is_depth_within_limit(1, Some(1), EnumCopyDepthLimitMode::Exact));
    assert!(is_depth_within_limit(99, None, EnumCopyDepthLimitMode::AtMost));
}

#[test]
fn overlap_is_rejected_both_ways() {
    let err = check_overlap("src".to_string(), "src/nested".to_string(), &p("/t/src"), &p("/t/src/nested"));
    assert!(matches!(err, Err(CopyTreeError::SourceDestinationOverlap { .. })));
    let err = check_overlap("a".to_string(), "b".to_string(), &p("/t/src/in"), &p("/t/src"));
    assert!(matches!(err, Err(CopyTreeError::SourceDestinationOverlap { .. })));
    assert!(check_overlap("a".to_string(), "b".to_string(), &p("/t/src"), &p("/t/srcx")).is_ok());
}

#[test]
fn zero_workers_clamp_to_one() {
    assert_eq!(calculate_worker_limit(Some(0), 4), 1);
    assert_eq!(calculate_worker_limit(Some(16), 4), 4);
    assert_eq!(calculate_worker_limit(None, 32), 8);
    assert_eq!(calculate_worker_limit(None, 0), 1);
    let ctx = ctx_with(SpecCopyOptions { num_workers_max: Some(0), ..SpecCopyOptions::default() });
    assert_eq!(ctx.n_workers_max, 1);
}

#[test]
fn existing_symlink_destination_is_an_error_under_overwrite() {
    let options = SpecCopyOptions {
        rule_conflict_file: EnumCopyFileConflictStrategy::Overwrite,
        ..SpecCopyOptions::default()
    };
    let mut ctx = ctx_with(options);
    let e = file("/t/src/a.txt");
    assert!(ctx.admit_file_entry(&e, 0));
    assert!(ctx.inspect_file_entry(&e, true, SourceKind::Regular, false));
    let dst = ctx.file_destination(&e);
    let probes = vec![ProbeState::Symlink];
    assert!(!ctx.check_file_destination(&dst, &probes));
    assert_eq!(ctx.take_tasks().len(), 0);
    let report = ctx.finish();
    assert_eq!(report.error_count(), 1);
    assert_eq!(
        report.errors[0].exception,
        "Unsafe destination path is an existing symlink: /t/dst/a.txt"
    );
}

#[test]
fn symlinked_component_in_destination_is_rejected() {
    let r = validate_destination_path_safety(
        &p("/t/dst/escape/file.txt"),
        &p("/t/dst"),
        &vec![ProbeState::Symlink, ProbeState::Missing],
    );
    assert!(matches!(r, Err(UnsafeDestination::SymlinkComponent(0))));
    let msg = r.err().unwrap().message(&p("/t/dst/escape/file.txt"), &p("/t/dst"));
    assert_eq!(msg, "Unsafe destination path traverses symlink component: /t/dst/escape");
    let r = validate_destination_path_safety(&p("/t/other/x"), &p("/t/dst"), &vec![]);
    assert!(matches!(r, Err(UnsafeDestination::EscapesRoot)));
    let r = validate_destination_path_safety(&p("/t/dst"), &p("/t/dst"), &vec![]);
    assert!(matches!(r, Err(UnsafeDestination::ParentEscapesRoot)));
    let r = validate_destination_path_safety(
        &p("/t/dst/a/b"),
        &p("/t/dst"),
        &vec![ProbeState::Present, ProbeState::Failed("denied".to_string())],
    );
    assert!(matches!(r, Err(UnsafeDestination::InspectFailed(_))));
    let r = validate_destination_path_safety(&p("/t/dst/a/b"), &p("/t/dst"), &vec![ProbeState::Present, ProbeState::Missing]);
    assert!(r.is_ok());
}

#[test]
fn destination_paths_keep_tree_or_flatten() {
    let src = p("/s/a/b.txt");
    let name = "b.txt".to_string();
    assert_eq!(path_display(&derive_destination_path(&src, &name, &p("/s"), &p("/d"), true)), "/d/a/b.txt");
    assert_eq!(path_display(&derive_destination_path(&src, &name, &p("/s"), &p("/d"), false)), "/d/b.txt");
    assert_eq!(path_display(&derive_destination_path(&src, &name, &p("/other"), &p("/d"), true)), "/d/b.txt");
    assert_eq!(path_display(&vec![]), "/");
}

#[test]
fn regex_include_and_exclude() {
    let options = SpecCopyOptions {
        patterns_include_files: Some(vec![r"^report_.*\.csv$".to_string()]),
        patterns_exclude_files: Some(vec![r"^report_skip\.csv$".to_string()]),
        rule_pattern: EnumCopyPatternMode::Regex,
        ..SpecCopyOptions::default()
    };
    let mut ctx = ctx_with(options);
    assert!(ctx.admit_file_entry(&file("/t/src/report_keep.csv"), 0));
    assert!(!ctx.admit_file_entry(&file("/t/src/report_skip.csv"), 0));
    assert!(!ctx.admit_file_entry(&file("/t/src/other.csv"), 0));
}

#[test]
fn glob_character_class_and_literal_substring() {
    let mut ctx = ctx_with(SpecCopyOptions {
        patterns_include_files: Some(vec!["file[0-9].txt".to_string()]),
        ..SpecCopyOptions::default()
    });
    assert!(ctx.admit_file_entry(&file("/t/src/file1.txt"), 0));
    assert!(!ctx.admit_file_entry(&file("/t/src/filea.txt"), 0));
    let mut ctx = ctx_with(SpecCopyOptions {
        patterns_include_files: Some(vec!["f_".to_string()]),
        rule_pattern: EnumCopyPatternMode::Literal,
        ..SpecCopyOptions::default()
    });
    assert!(ctx.admit_file_entry(&file("/t/src/xf_1.txt"), 0));
    assert!(!ctx.admit_file_entry(&file("/t/src/g.txt"), 0));
}

#[test]
fn invalid_patterns_fail_setup() {
    let bad_regex = SpecCopyOptions {
        patterns_include_files: Some(vec!["(".to_string()]),
        rule_pattern: EnumCopyPatternMode::Regex,
        ..SpecCopyOptions::default()
    };
    assert!(matches!(
        SpecCopyContext::new(p("/s"), p("/d"), bad_regex, 1),
        Err(CopyTreeError::InvalidPattern(_))
    ));
    let bad_glob = vec!["[".to_string()];
    assert!(matches!(
        compile_patterns(Some(&bad_glob), EnumCopyPatternMode::Glob),
        Err(CopyTreeError::InvalidPattern(_))
    ));
    assert!(matches!(compile_patterns(Some(&vec![]), EnumCopyPatternMode::Glob), Ok(None)));
}

#[test]
fn depth_options_are_validated() {
    let zero = SpecCopyOptions { depth_limit: Some(0), ..SpecCopyOptions::default() };
    assert!(matches!(zero.validate(), Err(CopyTreeError::InvalidDepthLimit(_))));
    let exact = SpecCopyOptions { rule_depth_limit: EnumCopyDepthLimitMode::Exact, ..SpecCopyOptions::default() };
    assert!(matches!(exact.validate(), Err(CopyTreeError::InvalidDepthLimit(_))));
    assert!(SpecCopyOptions::default().validate().is_ok());
}

#[test]
fn listing_is_sorted_filtered_and_cut_at_depth() {
    let ctx = ctx_with(SpecCopyOptions {
        patterns_exclude_dirs: Some(vec!["b".to_string()]),
        depth_limit: Some(2),
        ..SpecCopyOptions::default()
    });
    let dirs = vec![dir("/t/src/c"), dir("/t/src/b"), dir("/t/src/a")];
    let files = vec![file("/t/src/z.txt"), file("/t/src/B.txt"), file("/t/src/m.txt")];
    let (d, f) = ctx.plan_listing(dirs, files, 0);
    let dn: Vec<&str> = d.iter().map(|e| e.name_dir.as_str()).collect();
    let fnames: Vec<&str> = f.iter().map(|e| e.name_file.as_str()).collect();
    assert_eq!(dn, vec!["a", "c"]);
    assert_eq!(fnames, vec!["B.txt", "m.txt", "z.txt"]);
    let (d, f) = ctx.plan_listing(vec![dir("/t/src/x/y/z/a")], vec![file("/t/src/x/y/z/q")], 3);
    assert!(d.is_empty());
    assert_eq!(f.len(), 1);
}

#[test]
fn dereference_detects_symlink_loops() {
    let mut ctx = ctx_with(SpecCopyOptions {
        rule_symlink: EnumCopySymlinkStrategy::Dereference,
        ..SpecCopyOptions::default()
    });
    assert!(ctx.enter_directory(&p("/t/src"), Some((1, 2))));
    assert!(!ctx.enter_directory(&p("/t/src/loop"), Some((1, 2))));
    assert!(!ctx.enter_directory(&p("/t/src/gone"), None));
    let report = ctx.finish();
    assert_eq!(report.warnings, vec!["Symlink loop detected: /t/src/loop", "Failed to stat directory: /t/src/gone"]);
}

#[test]
fn broken_symlink_under_dereference_is_an_error() {
    let mut ctx = ctx_with(SpecCopyOptions {
        rule_symlink: EnumCopySymlinkStrategy::Dereference,
        ..SpecCopyOptions::default()
    });
    let e = SpecFileEntry { path_file_src: p("/t/src/l"), name_file: "l".to_string(), if_is_symlink: true };
    assert!(ctx.admit_file_entry(&e, 0));
    assert!(!ctx.inspect_file_entry(&e, false, SourceKind::Regular, false));
    let special = SpecFileEntry { path_file_src: p("/t/src/n"), name_file: "n".to_string(), if_is_symlink: true };
    assert!(ctx.admit_file_entry(&special, 0));
    assert!(!ctx.inspect_file_entry(&special, true, SourceKind::Special, false));
    let r = ctx.finish();
    assert_eq!(r.errors[0].exception, "Broken symlink: /t/src/l");
    assert_eq!(r.warnings, vec!["Special file target skipped: /t/src/n"]);
    assert_eq!(r.cnt_skipped, 1);
}

#[test]
fn hard_link_is_warned_and_still_copied() {
    let mut ctx = ctx_with(SpecCopyOptions::default());
    let e = file("/t/src/base.txt");
    assert!(ctx.admit_file_entry(&e, 0));
    assert!(ctx.inspect_file_entry(&e, true, SourceKind::Regular, true));
    let r = ctx.finish();
    assert_eq!(r.warnings, vec!["Hard link detected: /t/src/base.txt"]);
}

#[test]
fn directory_conflicts_follow_policy() {
    let mut b = ReportCopyBuilder::new();
    let dst = p("/d/a");
    assert!(should_skip_dir_conflict(&dst, DestKind::File, EnumCopyDirectoryConflictStrategy::Merge, &mut b));
    assert_eq!(b.errors[0].exception, "Destination is a file, expected directory: /d/a");
    assert!(!should_skip_dir_conflict(&dst, DestKind::Directory, EnumCopyDirectoryConflictStrategy::Merge, &mut b));
    assert!(should_skip_dir_conflict(&dst, DestKind::Directory, EnumCopyDirectoryConflictStrategy::Skip, &mut b));
    assert_eq!(b.cnt_skipped, 1);
    assert!(should_skip_dir_conflict(&dst, DestKind::Directory, EnumCopyDirectoryConflictStrategy::Error, &mut b));
    assert_eq!(b.errors[1].exception, "Destination exists: /d/a");
    assert!(!should_skip_dir_conflict(&dst, DestKind::Missing, EnumCopyDirectoryConflictStrategy::Error, &mut b));
}

#[test]
fn merge_onto_kept_symlink_is_warned_and_skipped() {
    let mut ctx = ctx_with(SpecCopyOptions {
        rule_conflict_dir: EnumCopyDirectoryConflictStrategy::Merge,
        ..SpecCopyOptions::default()
    });
    let e = SpecDirEntry { path_dir_src_sub: p("/t/src/ln"), name_dir: "ln".to_string(), if_is_symlink: true };
    let step = ctx.begin_dir_entry(&e, 0, true);
    assert!(step == DirStep::Place(DirPlacement::LinkKept));
    let dst = ctx.dir_destination(&e, DirPlacement::LinkKept);
    let probes = clear_probes(&ctx, &dst);
    let action = ctx.settle_dir_entry(&dst, DirPlacement::LinkKept, &probes, DestKind::Missing);
    assert!(action == DirAction::Finished(false));
    let r = ctx.finish();
    assert_eq!(r.warnings, vec!["Merge not applicable to symlink: /t/dst/ln"]);
    assert_eq!(r.cnt_skipped, 1);
}

#[test]
fn dry_run_counts_skips_and_queues_nothing() {
    let mut ctx = ctx_with(SpecCopyOptions { if_dry_run: true, ..SpecCopyOptions::default() });
    assert!(plan_file(&mut ctx, &file("/t/src/a.txt"), 0) == Some(FileAction::Nothing));
    assert_eq!(ctx.take_tasks().len(), 0);
    assert_eq!(ctx.finish().cnt_skipped, 1);
}

#[test]
fn copy_failures_are_recorded_per_task() {
    let mut ctx = ctx_with(SpecCopyOptions::default());
    ctx.record_copy_results(vec![
        SpecCopyOutcome { path_file_dst: p("/t/dst/a"), result: Ok(()) },
        SpecCopyOutcome { path_file_dst: p("/t/dst/b"), result: Err("disk full".to_string()) },
    ]);
    let r = ctx.finish();
    assert_eq!(r.cnt_copied, 1);
    assert_eq!(r.errors[0].path, "/t/dst/b");
    assert_eq!(r.errors[0].exception, "disk full");
}

#[test]
fn walk_stack_goes_depth_first_with_files_last() {
    let mut stack = SpecWalkStack::new();
    assert_eq!(stack.next_depth(), 0);
    stack.push_listing(vec![dir("/s/a"), dir("/s/b")], vec![file("/s/r.txt")]);
    let mut order: Vec<String> = Vec::new();
    loop {
        match stack.next_step() {
            WalkStep::Dir(e, depth) => {
                order.push(format!("dir {} {}", e.name_dir, depth));
                if e.name_dir == "a" {
                    assert_eq!(stack.next_depth(), depth + 1);
                    stack.push_listing(vec![dir("/s/a/x")], vec![file("/s/a/f.txt")]);
                }
            }
            WalkStep::Files(files, depth) => {
                for f in files {
                    order.push(format!("file {} {}", f.name_file, depth));
                }
            }
            WalkStep::Finished => break,
        }
    }
    assert_eq!(
        order,
        vec!["dir a 0", "dir x 1", "file f.txt 1", "dir b 0", "file r.txt 0"]
    );
}

#[test]
fn destinations_resolving_outside_the_root_are_rejected() {
    let root = p("/dst");
    for item in ["/dst2/f", "/other/f", "/dst/../other/f", "/dst/./f"] {
        let dst = p(item);
        let probes: Vec<ProbeState> = (0..dst.len().saturating_sub(root.len())).map(|_| ProbeState::Missing).collect();
        let r = validate_destination_path_safety(&dst, &root, &probes);
        assert!(matches!(r, Err(UnsafeDestination::EscapesRoot)), "{item}");
    }
    let msg = UnsafeDestination::EscapesRoot.message(&p("/dst/../other/f"), &root);
    assert_eq!(msg, "Unsafe destination path escapes destination root: /dst/../other/f (root=/dst)");
}

#[test]
fn oversized_globs_fail_setup_instead_of_panicking() {
    let huge: String = std::iter::repeat('?').take(300_000).collect();
    let r = compile_patterns(Some(&vec![huge]), EnumCopyPatternMode::Glob);
    assert!(matches!(r, Ok(_) | Err(CopyTreeError::InvalidPattern(_))));
    let too_long: String = std::iter::repeat('a').take(1_000_001).collect();
    assert!(matches!(
        compile_patterns(Some(&vec![too_long]), EnumCopyPatternMode::Glob),
        Err(CopyTreeError::InvalidPattern(_))
    ));
}
