use axiomkit_io_fs::{
    derive_horizontal_merge_tracker,
    plan_column_formats, SpecColumnFormatPlanOptions,
    parse_index, sanitize_sheet_name, select_sorted_indices_from_refs, validate_unique_columns,
    cast_col_num, cast_row_num, derive_slice_indices, plan_horizontal_merges,
    plan_vertical_visual_merge_borders, validate_policy_autofit, SpecAutofitCellsPolicy,
    SpecCellBorder, SpecCellFormat,
    _generate_vertical_runs, apply_vertical_run_text_blankout, calculate_row_chunk_size,
    create_sheet_identifier, derive_contiguous_ranges, generate_row_chunks, plan_sheet_slices,
    SpecXlsxReport,
    SpecXlsxRowChunkPolicy,
};

#[test]
fn test_generate_vertical_runs_detects_only_contiguous_non_empty_runs() {
    let grid = vec![
        vec!["A".to_string(), "X".to_string()],
        vec!["A".to_string(), "".to_string()],
        vec!["A".to_string(), "X".to_string()],
        vec!["".to_string(), "X".to_string()],
        vec!["B".to_string(), "X".to_string()],
        vec!["B".to_string(), "Y".to_string()],
    ];

    assert_eq!(
        _generate_vertical_runs(&grid),
        vec![
            (0, 0, 2, "A".to_string()),
            (0, 4, 5, "B".to_string()),
            (1, 2, 4, "X".to_string())
        ]
    );
}

#[test]
fn test_apply_vertical_run_text_blankout() {
    let mut grid = vec![
        vec!["A".to_string(), "B".to_string()],
        vec!["A".to_string(), "B".to_string()],
        vec!["".to_string(), "B".to_string()],
        vec!["C".to_string(), "B".to_string()],
        vec!["C".to_string(), "".to_string()],
    ];

    apply_vertical_run_text_blankout(&mut grid);

    assert_eq!(grid[0][0], "A");
    assert_eq!(grid[1][0], "");
    assert_eq!(grid[3][0], "C");
    assert_eq!(grid[4][0], "");

    assert_eq!(grid[0][1], "B");
    assert_eq!(grid[1][1], "");
    assert_eq!(grid[2][1], "");
    assert_eq!(grid[3][1], "");
}

#[test]
fn vertical_runs_of_empty_grid_are_empty() {
    let grid: Vec<Vec<String>> = vec![];
    assert!(_generate_vertical_runs(&grid).is_empty());
}

#[test]
fn row_chunk_size_follows_width_thresholds() {
    let policy = SpecXlsxRowChunkPolicy::default();
    assert_eq!(calculate_row_chunk_size(10, &policy), 10_000);
    assert_eq!(calculate_row_chunk_size(2_000, &policy), 2_000);
    assert_eq!(calculate_row_chunk_size(8_000, &policy), 1_000);
    let fixed = SpecXlsxRowChunkPolicy { fixed_size: Some(7), ..policy };
    assert_eq!(calculate_row_chunk_size(9_000, &fixed), 7);
}

#[test]
fn row_chunks_tile_all_rows() {
    assert_eq!(generate_row_chunks(10, 4), vec![(0, 4), (4, 4), (8, 2)]);
    assert_eq!(generate_row_chunks(0, 4), vec![]);
    assert_eq!(generate_row_chunks(3, 3), vec![(0, 3)]);
}

#[test]
fn contiguous_ranges_merge_consecutive_indices() {
    assert_eq!(derive_contiguous_ranges(&vec![]), vec![]);
    assert_eq!(
        derive_contiguous_ranges(&vec![1, 2, 3, 5, 7, 8]),
        vec![(1, 3), (5, 5), (7, 8)]
    );
}

#[test]
fn sheet_identifier_fits_the_name_limit() {
    assert_eq!(create_sheet_identifier("data", 2), "data_2");
    let long = "abcdefghijklmnopqrstuvwxyz0123456789";
    let id = create_sheet_identifier(long, 12);
    assert_eq!(id, "abcdefghijklmnopqrstuvwxyz01_12");
    assert_eq!(id.chars().count(), 31);
}

#[test]
fn xlsx_report_collects_warnings() {
    let mut report = SpecXlsxReport::default();
    report.warn("split".to_string());
    assert_eq!(report.warnings, vec!["split".to_string()]);
    assert!(report.sheets.is_empty());
}

#[test]
fn sheet_slices_single_sheet_keeps_name() {
    let mut report = SpecXlsxReport::default();
    let parts = plan_sheet_slices(10, 3, 1, "S", &mut report).expect("plan");
    assert_eq!(parts.len(), 1);
    assert_eq!(parts[0].sheet_name, "S");
    assert_eq!(
        (parts[0].row_start_inclusive, parts[0].row_end_exclusive, parts[0].col_start_inclusive, parts[0].col_end_exclusive),
        (0, 10, 0, 3)
    );
    assert!(report.warnings.is_empty());
    let empty = plan_sheet_slices(0, 2, 1, "E", &mut report).expect("plan");
    assert_eq!((empty[0].row_start_inclusive, empty[0].row_end_exclusive), (0, 0));
}

#[test]
fn sheet_slices_split_columns_first_then_rows() {
    let mut report = SpecXlsxReport::default();
    let parts = plan_sheet_slices(2_000_000, 20_000, 1, "S", &mut report).expect("plan");
    let got: Vec<(String, usize, usize, usize, usize)> = parts
        .iter()
        .map(|p| (p.sheet_name.clone(), p.row_start_inclusive, p.row_end_exclusive, p.col_start_inclusive, p.col_end_exclusive))
        .collect();
    assert_eq!(
        got,
        vec![
            ("S_1".to_string(), 0, 1_048_575, 0, 16_384),
            ("S_2".to_string(), 1_048_575, 2_000_000, 0, 16_384),
            ("S_3".to_string(), 0, 1_048_575, 16_384, 20_000),
            ("S_4".to_string(), 1_048_575, 2_000_000, 16_384, 20_000),
        ]
    );
    assert_eq!(
        report.warnings,
        vec!["Excel limit overflow: split into 4 sheets (columns-first, then rows).".to_string()]
    );
}

#[test]
fn sheet_slices_reject_bad_header_heights() {
    let mut report = SpecXlsxReport::default();
    assert_eq!(
        plan_sheet_slices(1, 1, 0, "S", &mut report).err(),
        Some("height_header must be >= 1.".to_string())
    );
    assert_eq!(
        plan_sheet_slices(1, 1, 1_048_576, "S", &mut report).err(),
        Some("Header too tall: height_header=1048576 exceeds Excel limit.".to_string())
    );
    assert!(report.warnings.is_empty());
}

fn grid(rows: &[&[&str]]) -> Vec<Vec<String>> {
    rows.iter().map(|r| r.iter().map(|c| c.to_string()).collect()).collect()
}

#[test]
fn horizontal_merges_cover_repeated_text_per_row() {
    let g = grid(&[&["A", "A", "B", ""], &["x", "", "", "y"], &["C", "C", "C", "C"]]);
    let plan = plan_horizontal_merges(&g);
    assert_eq!(plan.len(), 2);
    let row0 = &plan[&0];
    assert_eq!(row0.len(), 1);
    assert_eq!((row0[0].row_idx_start, row0[0].col_idx_start, row0[0].col_idx_end, row0[0].text.as_str()), (0, 0, 1, "A"));
    assert!(!plan.contains_key(&1));
    let row2 = &plan[&2];
    assert_eq!((row2[0].col_idx_start, row2[0].col_idx_end, row2[0].text.as_str()), (0, 3, "C"));
}

#[test]
fn vertical_borders_frame_each_run() {
    let g = grid(&[&["A", "X"], &["A", ""], &["A", "Y"]]);
    let plan = plan_vertical_visual_merge_borders(&g);
    assert_eq!(plan.len(), 3);
    assert_eq!(plan[&(0, 0)], SpecCellBorder { top: 1, bottom: 0, left: 1, right: 1 });
    assert_eq!(plan[&(1, 0)], SpecCellBorder { top: 0, bottom: 0, left: 1, right: 1 });
    assert_eq!(plan[&(2, 0)], SpecCellBorder { top: 0, bottom: 1, left: 1, right: 1 });
}

#[test]
fn cell_format_merge_prefers_the_patch() {
    let base = SpecCellFormat {
        font_name: Some("Times New Roman".to_string()),
        font_size: Some(11),
        border: Some(1),
        align: Some("left".to_string()),
        ..SpecCellFormat::default()
    };
    let header = base.with_(SpecCellFormat {
        bold: Some(true),
        align: Some("center".to_string()),
        ..SpecCellFormat::default()
    });
    assert_eq!(header.font_name.as_deref(), Some("Times New Roman"));
    assert_eq!(header.font_size, Some(11));
    assert_eq!(header.bold, Some(true));
    assert_eq!(header.align.as_deref(), Some("center"));
    assert_eq!(header.num_format, None);
}

#[test]
fn autofit_policy_is_validated() {
    assert!(validate_policy_autofit(&SpecAutofitCellsPolicy::default()).is_ok());
    let zero = SpecAutofitCellsPolicy { width_cell_min: 0, ..SpecAutofitCellsPolicy::default() };
    assert_eq!(validate_policy_autofit(&zero).err(), Some("policy_autofit.width_cell_min must be >= 1.".to_string()));
    let inverted = SpecAutofitCellsPolicy { width_cell_min: 9, width_cell_max: 3, ..SpecAutofitCellsPolicy::default() };
    assert_eq!(
        validate_policy_autofit(&inverted).err(),
        Some("policy_autofit.width_cell_max must be >= policy_autofit.width_cell_min.".to_string())
    );
}

#[test]
fn slice_indices_and_casts() {
    assert_eq!(derive_slice_indices(&vec![1, 5, 7, 9, 12], 5, 10), vec![0, 2, 4]);
    assert_eq!(cast_row_num(7), Ok(7));
    assert_eq!(cast_row_num(5_000_000_000), Err("row index overflow: 5000000000".to_string()));
    assert_eq!(cast_col_num(65_535), Ok(65_535));
    assert_eq!(cast_col_num(65_536), Err("column index overflow: 65536".to_string()));
}

#[test]
fn column_refs_resolve_to_sorted_unique_indices() {
    let columns = vec!["id".to_string(), "name".to_string(), "7".to_string()];
    let refs = vec!["name".to_string(), "0".to_string(), "+1".to_string(), "id".to_string()];
    assert_eq!(select_sorted_indices_from_refs(&columns, Some(&refs)), Ok(vec![0, 1]));
    assert_eq!(select_sorted_indices_from_refs(&columns, None), Ok(vec![]));
    let missing = vec!["id".to_string(), "ghost".to_string()];
    assert_eq!(
        select_sorted_indices_from_refs(&columns, Some(&missing)),
        Err("Column not found: \"ghost\"".to_string())
    );
}

#[test]
fn index_parsing_matches_usize_from_str() {
    for text in ["0", "42", "+7", "", "+", "-1", "1a", "18446744073709551615", "18446744073709551616"] {
        assert_eq!(parse_index(text), text.parse::<usize>().ok(), "{text}");
    }
}

#[test]
fn sheet_names_are_sanitized() {
    assert_eq!(sanitize_sheet_name("  a/b:c  ", "_"), "a_b_c");
    assert_eq!(sanitize_sheet_name("***", " "), "Sheet");
    assert_eq!(sanitize_sheet_name("", "_"), "Sheet");
    assert_eq!(sanitize_sheet_name("x*y", "[z]"), "x[z[z]z[z]y");
    let long: String = std::iter::repeat('n').take(40).collect();
    assert_eq!(sanitize_sheet_name(&long, "_").chars().count(), 31);
    assert_eq!(sanitize_sheet_name("\u{3000}tab\t", "_"), "tab");
}

#[test]
fn duplicate_columns_are_reported_by_name() {
    let ok = vec!["a".to_string(), "b".to_string()];
    assert!(validate_unique_columns(&ok).is_ok());
    let dup = vec!["b".to_string(), "a".to_string(), "b".to_string(), "a".to_string(), "c".to_string(), "a".to_string()];
    assert_eq!(
        validate_unique_columns(&dup).err(),
        Some("Duplicate column names detected: \"a\" x3 at indices [1, 3, 5]; \"b\" x2 at indices [0, 2]".to_string())
    );
}

fn fmt_num(code: &str) -> SpecCellFormat {
    SpecCellFormat { num_format: Some(code.to_string()), ..SpecCellFormat::default() }
}

#[test]
fn column_formats_pick_kind_then_patch_then_override() {
    let text = fmt_num("@");
    let integer = fmt_num("0");
    let decimal = fmt_num("0.0000");
    let scientific = fmt_num("0.00E+0");
    let patch = SpecCellFormat { border: Some(1), ..SpecCellFormat::default() };
    let mut overrides = std::collections::BTreeMap::new();
    overrides.insert(3usize, SpecCellFormat { bold: Some(true), ..SpecCellFormat::default() });
    let numeric = vec![1, 2, 3];
    let integers = vec![1];
    let sci = vec![2];
    let plan = plan_column_formats(SpecColumnFormatPlanOptions {
        width_data: 4,
        cols_idx_numeric: &numeric,
        cols_idx_integer: &integers,
        cols_idx_decimal: None,
        cols_idx_scientific: &sci,
        cols_fmt_overrides: &overrides,
        fmt_text: &text,
        fmt_integer: &integer,
        fmt_decimal: &decimal,
        fmt_scientific: &scientific,
        base_format_patch: &patch,
    });
    let codes: Vec<Option<String>> = plan.fmts_base_by_col.iter().map(|f| f.num_format.clone()).collect();
    assert_eq!(
        codes,
        vec![Some("@".to_string()), Some("0".to_string()), Some("0.00E+0".to_string()), Some("0.0000".to_string())]
    );
    assert!(plan.fmts_base_by_col.iter().all(|f| f.border == Some(1)));
    assert_eq!(plan.fmts_by_col[3].bold, Some(true));
    assert_eq!(plan.fmts_by_col[0].bold, None);
}

#[test]
fn merge_tracker_marks_cells_past_each_anchor() {
    let g = grid(&[&["A", "A", "A", "B"], &["x", "y", "y", ""]]);
    let plan = plan_horizontal_merges(&g);
    let tracker = derive_horizontal_merge_tracker(&plan);
    let mut keys: Vec<(usize, usize)> = tracker.keys().copied().collect();
    keys.sort();
    assert_eq!(keys, vec![(0, 1), (0, 2), (1, 2)]);
    assert!(tracker.values().all(|v| *v));
}
