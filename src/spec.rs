//! Copy options, their validation, and the top-level error type.
use vstd::prelude::*;

verus! {

/// Symlink handling policy.
#[derive(Debug, Clone, Copy, PartialEq, Eq, Structural)]
pub enum EnumCopySymlinkStrategy {
    /// Follow the link and copy the target bytes/entries.
    Dereference,
    /// Create a symbolic link at destination (do not copy target bytes).
    CopySymlinks,
    /// Ignore symlink entries.
    SkipSymlinks,
}

/// Existing destination file conflict policy.
#[derive(Debug, Clone, Copy, PartialEq, Eq, Structural)]
pub enum EnumCopyFileConflictStrategy {
    /// Keep destination file and skip current source file.
    Skip,
    /// Replace destination file with source file.
    Overwrite,
    /// Record an error and skip this file.
    Error,
}

/// Existing destination directory conflict policy.
#[derive(Debug, Clone, Copy, PartialEq, Eq, Structural)]
pub enum EnumCopyDirectoryConflictStrategy {
    /// Do not descend/copy into an already existing destination directory.
    Skip,
    /// Reuse destination directory and continue copying children into it.
    Merge,
    /// Record an error when destination directory already exists.
    Error,
}

/// Pattern matching mode for include/exclude lists.
#[derive(Debug, Clone, Copy, PartialEq, Eq, Structural)]
pub enum EnumCopyPatternMode {
    /// Shell-like wildcards (`*`, `?`, character classes).
    Glob,
    /// Regular expression, searched anywhere in the name.
    Regex,
    /// Substring containment.
    Literal,
}

/// Depth filter mode.
#[derive(Debug, Clone, Copy, PartialEq, Eq, Structural)]
pub enum EnumCopyDepthLimitMode {
    /// Include entries with depth `<= depth_limit`.
    AtMost,
    /// Include entries with depth exactly equal to `depth_limit`.
    Exact,
}

/// Input options of a copy run.
#[derive(Debug, Clone)]
pub struct SpecCopyOptions {
    /// Include patterns applied to file basename.
    pub patterns_include_files: Option<Vec<String>>,
    /// Exclude patterns applied to file basename.
    pub patterns_exclude_files: Option<Vec<String>>,
    /// Include patterns applied to directory basename.
    pub patterns_include_dirs: Option<Vec<String>>,
    /// Exclude patterns applied to directory basename.
    pub patterns_exclude_dirs: Option<Vec<String>>,
    /// Pattern interpretation mode.
    pub rule_pattern: EnumCopyPatternMode,
    /// Conflict behavior for destination files.
    pub rule_conflict_file: EnumCopyFileConflictStrategy,
    /// Conflict behavior for destination directories.
    pub rule_conflict_dir: EnumCopyDirectoryConflictStrategy,
    /// Symlink handling behavior.
    pub rule_symlink: EnumCopySymlinkStrategy,
    /// Optional maximum/target depth (depends on `rule_depth_limit`).
    pub depth_limit: Option<usize>,
    /// Depth evaluation mode.
    pub rule_depth_limit: EnumCopyDepthLimitMode,
    /// Maximum worker threads for the file-copy stage.
    pub num_workers_max: Option<usize>,
    /// Keep relative source tree structure in destination.
    pub if_keep_tree: bool,
    /// Do not mutate the filesystem; record what would happen.
    pub if_dry_run: bool,
}

impl Default for SpecCopyOptions {
    fn default() -> (r: Self)
        ensures
            r.patterns_include_files is None,
            r.patterns_exclude_files is None,
            r.patterns_include_dirs is None,
            r.patterns_exclude_dirs is None,
            r.rule_pattern == EnumCopyPatternMode::Glob,
            r.rule_conflict_file == EnumCopyFileConflictStrategy::Skip,
            r.rule_conflict_dir == EnumCopyDirectoryConflictStrategy::Skip,
            r.rule_symlink == EnumCopySymlinkStrategy::CopySymlinks,
            r.depth_limit is None,
            r.rule_depth_limit == EnumCopyDepthLimitMode::AtMost,
            r.num_workers_max is None,
            r.if_keep_tree,
            !r.if_dry_run,
    {
        SpecCopyOptions {
            patterns_include_files: None,
            patterns_exclude_files: None,
            patterns_include_dirs: None,
            patterns_exclude_dirs: None,
            rule_pattern: EnumCopyPatternMode::Glob,
            rule_conflict_file: EnumCopyFileConflictStrategy::Skip,
            rule_conflict_dir: EnumCopyDirectoryConflictStrategy::Skip,
            rule_symlink: EnumCopySymlinkStrategy::CopySymlinks,
            depth_limit: None,
            rule_depth_limit: EnumCopyDepthLimitMode::AtMost,
            num_workers_max: None,
            if_keep_tree: true,
            if_dry_run: false,
        }
    }
}

/// One per-entry copy failure: the path concerned and the error text.
#[derive(Debug, Clone)]
pub struct SpecCopyError {
    /// Failed source or destination path, as displayed.
    pub path: String,
    /// User-facing error text.
    pub exception: String,
}

/// Failure to start a run (validation or setup); such a run yields no report.
#[derive(Debug)]
pub enum CopyTreeError {
    /// Invalid depth combination or value.
    InvalidDepthLimit(String),
    /// Invalid include/exclude pattern.
    InvalidPattern(String),
    /// Source path is not a directory.
    SourceNotDirectory(String),
    /// Source and destination overlap (one contains the other).
    SourceDestinationOverlap {
        /// Source directory as given.
        source: String,
        /// Destination directory as given.
        destination: String,
    },
    /// Destination directory initialization failed.
    DestinationInitFailed {
        /// Destination path that failed initialization.
        path: String,
        /// Underlying error text.
        message: String,
    },
}

/// The depth settings are valid: a limit, if any, is at least one, and the
/// "exact" mode has a limit.
pub open spec fn depth_options_valid(
    depth_limit: Option<usize>,
    rule_depth_limit: EnumCopyDepthLimitMode,
) -> bool {
    &&& depth_limit != Some(0usize)
    &&& (rule_depth_limit == EnumCopyDepthLimitMode::Exact ==> depth_limit is Some)
}

impl SpecCopyOptions {
    /// The options' depth settings are valid.
    pub open spec fn depth_valid(&self) -> bool {
        depth_options_valid(self.depth_limit, self.rule_depth_limit)
    }

    /// Checks the depth settings before any filesystem work.
    pub fn validate(&self) -> (r: Result<(), CopyTreeError>)
        ensures
            r is Ok <==> self.depth_valid(),
            r is Err ==> r->Err_0 is InvalidDepthLimit,
    {
        match self.depth_limit {
            Some(0) => {
                return Err(
                    CopyTreeError::InvalidDepthLimit(
                        String::from_str("Arg `depth_limit` must be >= 1 or None."),
                    ),
                );
            },
            _ => {},
        }
        if self.depth_limit.is_none() && self.rule_depth_limit == EnumCopyDepthLimitMode::Exact {
            return Err(
                CopyTreeError::InvalidDepthLimit(
                    String::from_str("`depth_limit` is required when depth_mode='exact'."),
                ),
            );
        }
        Ok(())
    }
}

} // verus!
