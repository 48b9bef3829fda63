//! Conflict resolution against an existing destination, and the
//! broken-symlink rule.
use vstd::prelude::*;

use crate::path::{comps, display, path_display};
use crate::report::{counted, error_added, ReportCopyBuilder};
use crate::spec::{
    EnumCopyDirectoryConflictStrategy, EnumCopyFileConflictStrategy, EnumCopySymlinkStrategy,
};

verus! {

/// What exists at a destination path (following a final symlink).
#[derive(Debug, Clone, Copy, PartialEq, Eq, Structural)]
pub enum DestKind {
    /// Nothing exists there.
    Missing,
    /// A regular file exists there.
    File,
    /// A directory exists there.
    Directory,
    /// Something else exists there.
    Other,
}

/// Whether a symlink entry is an error: the policy is "dereference" and its
/// target does not exist.
pub fn should_error_broken_symlink(target_exists: bool, rule_symlink: EnumCopySymlinkStrategy) -> (r: bool)
    ensures
        r == (rule_symlink == EnumCopySymlinkStrategy::Dereference && !target_exists),
{
    rule_symlink == EnumCopySymlinkStrategy::Dereference && !target_exists
}

/// What the directory-conflict rule does to the report.
pub open spec fn dir_conflict_effect(
    old: ReportCopyBuilder,
    new: ReportCopyBuilder,
    path: Seq<Seq<char>>,
    dest: DestKind,
    rule: EnumCopyDirectoryConflictStrategy,
) -> bool {
    if dest == DestKind::Missing {
        new == old
    } else if dest == DestKind::File {
        error_added(old, new, display(path), "Destination is a file, expected directory: "@ + display(path))
    } else {
        match rule {
            EnumCopyDirectoryConflictStrategy::Skip => counted(old, new, 0, 0, 0, 1),
            EnumCopyDirectoryConflictStrategy::Error => error_added(
                old,
                new,
                display(path),
                "Destination exists: "@ + display(path),
            ),
            EnumCopyDirectoryConflictStrategy::Merge => new == old,
        }
    }
}

/// Whether the directory-conflict rule stops this entry.
pub open spec fn dir_conflict_stops(dest: DestKind, rule: EnumCopyDirectoryConflictStrategy) -> bool {
    dest != DestKind::Missing && (dest == DestKind::File || rule
        != EnumCopyDirectoryConflictStrategy::Merge)
}

/// Applies the directory-conflict rule to an existing destination: a file
/// there is always an error; otherwise "skip" counts a skip, "error" records
/// an error, and "merge" lets the entry through. Returns whether to stop.
pub fn should_skip_dir_conflict(
    path_dst: &Vec<String>,
    dest: DestKind,
    rule_conflict: EnumCopyDirectoryConflictStrategy,
    builder_cp_report: &mut ReportCopyBuilder,
) -> (r: bool)
    requires
        old(builder_cp_report).cnt_skipped < u64::MAX,
    ensures
        r == dir_conflict_stops(dest, rule_conflict),
        dir_conflict_effect(
            *old(builder_cp_report),
            *final(builder_cp_report),
            comps(path_dst@),
            dest,
            rule_conflict,
        ),
{
    if dest == DestKind::Missing {
        return false;
    }
    if dest == DestKind::File {
        let shown = path_display(path_dst);
        let mut msg = String::from_str("Destination is a file, expected directory: ");
        msg.append(shown.as_str());
        builder_cp_report.add_error(shown, msg);
        return true;
    }
    match rule_conflict {
        EnumCopyDirectoryConflictStrategy::Skip => {
            builder_cp_report.add_skipped();
            true
        },
        EnumCopyDirectoryConflictStrategy::Error => {
            let shown = path_display(path_dst);
            let mut msg = String::from_str("Destination exists: ");
            msg.append(shown.as_str());
            builder_cp_report.add_error(shown, msg);
            true
        },
        EnumCopyDirectoryConflictStrategy::Merge => false,
    }
}

/// What the file-conflict rule does to the report.
pub open spec fn file_conflict_effect(
    old: ReportCopyBuilder,
    new: ReportCopyBuilder,
    path: Seq<Seq<char>>,
    dest: DestKind,
    rule: EnumCopyFileConflictStrategy,
) -> bool {
    if dest == DestKind::Missing {
        new == old
    } else if dest == DestKind::Directory {
        error_added(old, new, display(path), "Destination is a directory: "@ + display(path))
    } else {
        match rule {
            EnumCopyFileConflictStrategy::Skip => counted(old, new, 0, 0, 0, 1),
            EnumCopyFileConflictStrategy::Error => error_added(
                old,
                new,
                display(path),
                "Destination exists: "@ + display(path),
            ),
            EnumCopyFileConflictStrategy::Overwrite => new == old,
        }
    }
}

/// Whether the file-conflict rule stops this entry.
pub open spec fn file_conflict_stops(dest: DestKind, rule: EnumCopyFileConflictStrategy) -> bool {
    dest != DestKind::Missing && (dest == DestKind::Directory || rule
        != EnumCopyFileConflictStrategy::Overwrite)
}

/// Applies the file-conflict rule to an existing destination: a directory
/// there is always an error; otherwise "skip" counts a skip, "error" records
/// an error, and "overwrite" lets the entry through. Returns whether to stop.
pub fn should_skip_file_conflict(
    path_dst: &Vec<String>,
    dest: DestKind,
    rule_conflict: EnumCopyFileConflictStrategy,
    builder_cp_report: &mut ReportCopyBuilder,
) -> (r: bool)
    requires
        old(builder_cp_report).cnt_skipped < u64::MAX,
    ensures
        r == file_conflict_stops(dest, rule_conflict),
        file_conflict_effect(
            *old(builder_cp_report),
            *final(builder_cp_report),
            comps(path_dst@),
            dest,
            rule_conflict,
        ),
{
    if dest == DestKind::Missing {
        return false;
    }
    if dest == DestKind::Directory {
        let shown = path_display(path_dst);
        let mut msg = String::from_str("Destination is a directory: ");
        msg.append(shown.as_str());
        builder_cp_report.add_error(shown, msg);
        return true;
    }
    match rule_conflict {
        EnumCopyFileConflictStrategy::Skip => {
            builder_cp_report.add_skipped();
            true
        },
        EnumCopyFileConflictStrategy::Error => {
            let shown = path_display(path_dst);
            let mut msg = String::from_str("Destination exists: ");
            msg.append(shown.as_str());
            builder_cp_report.add_error(shown, msg);
            true
        },
        EnumCopyFileConflictStrategy::Overwrite => false,
    }
}

} // verus!
