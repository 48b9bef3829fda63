//! Configurable recursive directory-copy engine: the decisions that a copy run
//! makes (options, filters, depth, destination safety, conflicts, the report),
//! and the planning helpers of the spreadsheet writer.

pub mod columns;
pub mod conflict;
pub mod format;
pub mod path;
pub mod pattern;
pub mod report;
pub mod sheet;
pub mod spec;
pub mod text;
pub mod walk;

pub use format::{
    cast_col_num, cast_row_num, copy_format, derive_slice_indices, plan_column_formats,
    validate_policy_autofit, EnumAutofitColumnsRule, SpecAutofitCellsPolicy, SpecCellFormat,
    SpecColumnFormatPlan, SpecColumnFormatPlanOptions,
};
pub use columns::{parse_index, select_sorted_indices_from_refs, validate_unique_columns};
pub use conflict::{should_error_broken_symlink, should_skip_dir_conflict, should_skip_file_conflict, DestKind};
pub use path::{
    calculate_worker_limit, check_destination, derive_destination_path, is_depth_within_limit,
    is_overlap, is_relative_to_base, path_display, validate_destination_path_safety, ProbeState,
    UnsafeDestination,
};
pub use pattern::{compile_patterns, should_exclude_by_patterns, SpecCopyPatterns, TypeCopyPatternSeq};
pub use report::{ReportCopy, ReportCopyBuilder};
pub use sheet::{
    _generate_vertical_runs, apply_vertical_run_text_blankout, calculate_row_chunk_size,
    create_sheet_identifier, derive_contiguous_ranges, derive_horizontal_merge_tracker, generate_row_chunks, plan_horizontal_merges, plan_sheet_slices,
    plan_vertical_visual_merge_borders, sanitize_sheet_name,
    SpecCellBorder,
    SpecSheetHorizontalMerge, SpecSheetSlice, SpecXlsxReport, SpecXlsxRowChunkPolicy,
};
pub use spec::{
    CopyTreeError, EnumCopyDepthLimitMode, EnumCopyDirectoryConflictStrategy,
    EnumCopyFileConflictStrategy, EnumCopyPatternMode, EnumCopySymlinkStrategy, SpecCopyError,
    SpecCopyOptions,
};
pub use walk::{
    check_overlap, DirAction, DirPlacement, DirStep, FileAction, SourceKind, SpecCopyContext,
    SpecCopyOutcome, SpecCopyTaskFile, SpecDirEntry, SpecFileEntry, SpecWalkStack, WalkStep,
};
