//! The run context and the per-entry decisions of the tree walk.
//!
//! The walk itself lists directories and touches the filesystem; every
//! decision it takes goes through the methods here. An entry is handled in
//! steps: each step takes what the filesystem showed and says what to do
//! next, recording counts, warnings and errors in the run's report.
use vstd::prelude::*;
use vstd::seq_lib::to_multiset_insert;

use crate::conflict::{
    dir_conflict_effect, dir_conflict_stops, file_conflict_effect, file_conflict_stops,
    should_error_broken_symlink, should_skip_dir_conflict, should_skip_file_conflict, DestKind,
};
use crate::path::{
    calculate_worker_limit, check_destination, comps, derive_destination_path, destination_of,
    destination_safe, display, is_depth_within_limit, depth_within, lemma_destination_under_root,
    path_display, probe_clear, relative_step, is_overlap, starts_with, unsafe_message, worker_limit, ProbeState, UnsafeDestination,
};
use crate::pattern::{compiled_ref, excluded, raw_list_valid, should_exclude_by_patterns, SpecCopyPatterns};
use crate::report::{
    lemma_counted_logged, lemma_error_logged, lemma_logged_chain, lemma_logged_nothing,
    lemma_warning_logged, logged, ReportCopy, ReportCopyBuilder,
};
use crate::text::{lemma_seq_lt_asymmetric, seq_lt, str_lt};
use crate::spec::{
    CopyTreeError, EnumCopyDirectoryConflictStrategy, EnumCopySymlinkStrategy, SpecCopyOptions,
};

verus! {

/// A directory-like entry of a listed directory.
pub struct SpecDirEntry {
    /// Absolute source path of the entry.
    pub path_dir_src_sub: Vec<String>,
    /// Base name of the entry.
    pub name_dir: String,
    /// Whether the entry itself is a symbolic link.
    pub if_is_symlink: bool,
}

/// A file-like entry of a listed directory.
pub struct SpecFileEntry {
    /// Absolute source path of the entry.
    pub path_file_src: Vec<String>,
    /// Base name of the entry.
    pub name_file: String,
    /// Whether the entry itself is a symbolic link.
    pub if_is_symlink: bool,
}

/// One planned file copy.
pub struct SpecCopyTaskFile {
    /// Source file.
    pub path_file_src: Vec<String>,
    /// Destination file.
    pub path_file_dst: Vec<String>,
}

/// The result of executing one planned copy.
pub struct SpecCopyOutcome {
    /// Destination file of the task.
    pub path_file_dst: Vec<String>,
    /// `Ok` when the bytes were copied, else the failure text.
    pub result: Result<(), String>,
}

/// Everything one run carries through its walk.
pub struct SpecCopyContext {
    /// Source root.
    pub path_dir_src: Vec<String>,
    /// Destination root.
    pub path_dir_dst: Vec<String>,
    /// The run's options.
    pub spec_cp_options: SpecCopyOptions,
    /// The compiled pattern lists.
    pub spec_cp_pats: SpecCopyPatterns,
    /// Effective number of copy workers.
    pub n_workers_max: usize,
    /// The run's report so far.
    pub builder_cp_report: ReportCopyBuilder,
    /// (device, inode) of each directory visited under "dereference".
    pub set_visited_dirs: Vec<(u64, u64)>,
    /// File copies planned and not yet executed.
    pub l_tasks_file_copy: Vec<SpecCopyTaskFile>,
}

/// A borrowed view of an optional pattern list.
pub open spec fn list_ref(o: &Option<Vec<String>>) -> Option<&Vec<String>> {
    match o {
        Some(v) => Some(v),
        None => None,
    }
}

/// A planned destination lies strictly under the destination root.
pub open spec fn under_root(dst: Seq<String>, root: Seq<String>) -> bool {
    starts_with(comps(dst), comps(root)) && dst.len() > root.len()
}

/// What the directory step of an entry says to do next.
#[derive(PartialEq, Eq, Structural)]
pub enum DirStep {
    /// Nothing more for this entry; descend into it or not.
    Done(bool),
    /// The entry needs a destination; check it with the given placement.
    Place(DirPlacement),
}

/// How a directory-like entry is placed at the destination.
#[derive(Clone, Copy, PartialEq, Eq, Structural)]
pub enum DirPlacement {
    /// A symbolic link, at its kept-tree path.
    LinkKept,
    /// A symbolic link, directly under the destination root.
    LinkFlat,
    /// A directory, at its kept-tree path.
    Directory,
}

/// What to do at the destination once it has been checked.
#[derive(PartialEq, Eq, Structural)]
pub enum DirAction {
    /// Nothing to create; descend into the entry or not.
    Finished(bool),
    /// Create a symbolic link with the source link's target.
    MakeSymlink,
    /// Create the directory (with its ancestors).
    MakeDir,
}

/// What a file entry's source turned out to be.
pub enum SourceKind {
    /// A regular file.
    Regular,
    /// Something other than a regular file.
    Special,
    /// It could not be inspected; the failure text.
    Unreadable(String),
}

/// What to do with a file entry once its destination has been checked.
#[derive(PartialEq, Eq, Structural)]
pub enum FileAction {
    /// Nothing.
    Nothing,
    /// Create a symbolic link with the source link's target.
    MakeSymlink,
    /// A copy task was queued.
    Queued,
}

impl SpecCopyContext {
    /// The run's invariant: matched never exceeds scanned, there is at least
    /// one worker, and every queued copy writes strictly under the
    /// destination root.
    pub open spec fn wf(&self) -> bool {
        &&& self.builder_cp_report.cnt_matched <= self.builder_cp_report.cnt_scanned
        &&& self.n_workers_max >= 1
        &&& forall|i: int|
            0 <= i < self.l_tasks_file_copy@.len() ==> under_root(
                #[trigger] self.l_tasks_file_copy@[i].path_file_dst@,
                self.path_dir_dst@,
            )
    }

    /// Every counter can still be incremented.
    pub open spec fn has_room(&self) -> bool {
        &&& self.builder_cp_report.cnt_matched < u64::MAX
        &&& self.builder_cp_report.cnt_scanned < u64::MAX
        &&& self.builder_cp_report.cnt_copied < u64::MAX
        &&& self.builder_cp_report.cnt_skipped < u64::MAX
    }

    /// `new` differs from `old` at most in the report.
    pub open spec fn same_but_report(old: Self, new: Self) -> bool {
        &&& new.path_dir_src == old.path_dir_src
        &&& new.path_dir_dst == old.path_dir_dst
        &&& new.spec_cp_options == old.spec_cp_options
        &&& new.spec_cp_pats == old.spec_cp_pats
        &&& new.n_workers_max == old.n_workers_max
        &&& new.set_visited_dirs == old.set_visited_dirs
        &&& new.l_tasks_file_copy == old.l_tasks_file_copy
    }

    /// Sets up a run: compiles the pattern lists (an invalid one fails the
    /// run) and fixes the worker count for a machine with `n_cpu` threads.
    pub fn new(
        path_dir_src: Vec<String>,
        path_dir_dst: Vec<String>,
        spec_cp_options: SpecCopyOptions,
        n_cpu: usize,
    ) -> (r: Result<Self, CopyTreeError>)
        ensures
            r is Ok <==> {
                &&& raw_list_valid(list_ref(&spec_cp_options.patterns_include_files), spec_cp_options.rule_pattern)
                &&& raw_list_valid(list_ref(&spec_cp_options.patterns_exclude_files), spec_cp_options.rule_pattern)
                &&& raw_list_valid(list_ref(&spec_cp_options.patterns_include_dirs), spec_cp_options.rule_pattern)
                &&& raw_list_valid(list_ref(&spec_cp_options.patterns_exclude_dirs), spec_cp_options.rule_pattern)
            },
            r is Err ==> r->Err_0 is InvalidPattern,
            r is Ok ==> {
                let c = r->Ok_0;
                &&& c.wf()
                &&& c.path_dir_src == path_dir_src
                &&& c.path_dir_dst == path_dir_dst
                &&& c.spec_cp_options == spec_cp_options
                &&& c.n_workers_max == worker_limit(spec_cp_options.num_workers_max, n_cpu)
                &&& c.builder_cp_report.cnt_matched == 0
                &&& c.builder_cp_report.cnt_scanned == 0
                &&& c.builder_cp_report.cnt_copied == 0
                &&& c.builder_cp_report.cnt_skipped == 0
                &&& c.builder_cp_report.errors@.len() == 0
                &&& c.builder_cp_report.warnings@.len() == 0
                &&& c.set_visited_dirs@.len() == 0
                &&& c.l_tasks_file_copy@.len() == 0
            },
    {
        let pats = SpecCopyPatterns::from_raw(
            spec_cp_options.patterns_include_files.as_ref(),
            spec_cp_options.patterns_exclude_files.as_ref(),
            spec_cp_options.patterns_include_dirs.as_ref(),
            spec_cp_options.patterns_exclude_dirs.as_ref(),
            spec_cp_options.rule_pattern,
        )?;
        let n_workers_max = calculate_worker_limit(spec_cp_options.num_workers_max, n_cpu);
        Ok(
            SpecCopyContext {
                path_dir_src,
                path_dir_dst,
                spec_cp_options,
                spec_cp_pats: pats,
                n_workers_max,
                builder_cp_report: ReportCopyBuilder::new(),
                set_visited_dirs: Vec::new(),
                l_tasks_file_copy: Vec::new(),
            },
        )
    }

    /// The step-1 decision for a directory-like entry at `depth_value`.
    pub open spec fn dir_begin_step(&self, entry: &SpecDirEntry, depth_value: nat, target_exists: bool) -> DirStep {
        let o = self.spec_cp_options;
        let within = depth_within(depth_value, o.depth_limit, o.rule_depth_limit);
        if entry.if_is_symlink && o.rule_symlink == EnumCopySymlinkStrategy::SkipSymlinks {
            DirStep::Done(false)
        } else if entry.if_is_symlink && o.rule_symlink == EnumCopySymlinkStrategy::Dereference
            && !target_exists {
            DirStep::Done(false)
        } else if entry.if_is_symlink && o.rule_symlink == EnumCopySymlinkStrategy::CopySymlinks {
            if !within {
                DirStep::Done(false)
            } else if o.if_keep_tree {
                DirStep::Place(DirPlacement::LinkKept)
            } else {
                DirStep::Place(DirPlacement::LinkFlat)
            }
        } else if o.if_keep_tree && within {
            DirStep::Place(DirPlacement::Directory)
        } else {
            DirStep::Done(true)
        }
    }

    /// Whether step 1 of a directory-like entry counts it as scanned and matched.
    pub open spec fn dir_begin_counts(&self, entry: &SpecDirEntry, depth_value: nat, target_exists: bool) -> bool {
        let o = self.spec_cp_options;
        let within = depth_within(depth_value, o.depth_limit, o.rule_depth_limit);
        if entry.if_is_symlink && o.rule_symlink == EnumCopySymlinkStrategy::CopySymlinks {
            within
        } else {
            o.if_keep_tree && within
        }
    }

    /// Whether step 1 of a directory-like entry records it as a broken symlink.
    pub open spec fn dir_begin_broken(&self, entry: &SpecDirEntry, target_exists: bool) -> bool {
        entry.if_is_symlink && self.spec_cp_options.rule_symlink == EnumCopySymlinkStrategy::Dereference
            && !target_exists
    }

    /// Directory step 1: the depth and symlink rules. A skipped symlink is
    /// counted (scanned, matched, skipped) under keep-tree within the depth
    /// limit; a broken symlink under "dereference" is an error; a copied
    /// symlink beyond the depth limit is dropped uncounted; otherwise the entry
    /// is counted when it is placed, and a plain directory is descended into.
    pub fn begin_dir_entry(&mut self, entry: &SpecDirEntry, depth_value: usize, target_exists: bool) -> (r: DirStep)
        requires
            old(self).wf(),
            old(self).has_room(),
        ensures
            final(self).wf(),
            Self::same_but_report(*old(self), *final(self)),
            r == old(self).dir_begin_step(entry, depth_value as nat, target_exists),
            logged(
                old(self).builder_cp_report,
                final(self).builder_cp_report,
                if old(self).dir_begin_broken(entry, target_exists) {
                    seq![(display(comps(entry.path_dir_src_sub@)), "Broken symlink: "@ + display(comps(entry.path_dir_src_sub@)))]
                } else {
                    seq![]
                },
                seq![],
                if old(self).dir_begin_counts(entry, depth_value as nat, target_exists) { 1 } else { 0 },
                if old(self).dir_begin_counts(entry, depth_value as nat, target_exists) { 1 } else { 0 },
                0,
                if entry.if_is_symlink && old(self).spec_cp_options.rule_symlink
                    == EnumCopySymlinkStrategy::SkipSymlinks && old(self).dir_begin_counts(entry, depth_value as nat, target_exists) {
                    1
                } else {
                    0
                },
            ),
    {
        let ghost b0 = self.builder_cp_report;
        let within = is_depth_within_limit(
            depth_value,
            self.spec_cp_options.depth_limit,
            self.spec_cp_options.rule_depth_limit,
        );
        let keep = self.spec_cp_options.if_keep_tree;
        let rule = self.spec_cp_options.rule_symlink;
        if entry.if_is_symlink {
            if rule == EnumCopySymlinkStrategy::SkipSymlinks {
                if keep && within {
                    self.builder_cp_report.add_scanned();
                    self.builder_cp_report.add_matched();
                    self.builder_cp_report.add_skipped();
                    proof { lemma_counted_logged(b0, self.builder_cp_report, 1, 1, 0, 1); }
                } else {
                    proof { lemma_logged_nothing(b0); }
                }
                return DirStep::Done(false);
            }
            if should_error_broken_symlink(target_exists, rule) {
                let shown = path_display(&entry.path_dir_src_sub);
                let mut msg = String::from_str("Broken symlink: ");
                msg.append(shown.as_str());
                self.builder_cp_report.add_error(shown, msg);
                let ghost b1 = self.builder_cp_report;
                proof { lemma_error_logged(b0, b1, display(comps(entry.path_dir_src_sub@)), "Broken symlink: "@ + display(comps(entry.path_dir_src_sub@))); }
                if keep && within {
                    self.builder_cp_report.add_scanned();
                    self.builder_cp_report.add_matched();
                    proof {
                        lemma_counted_logged(b1, self.builder_cp_report, 1, 1, 0, 0);
                        lemma_logged_chain(b0, b1, self.builder_cp_report,
                            seq![(display(comps(entry.path_dir_src_sub@)), "Broken symlink: "@ + display(comps(entry.path_dir_src_sub@)))], seq![], 0, 0, 0, 0,
                            seq![], seq![], 1, 1, 0, 0);
                        assert(seq![(display(comps(entry.path_dir_src_sub@)), "Broken symlink: "@ + display(comps(entry.path_dir_src_sub@)))] + seq![]
                            =~= seq![(display(comps(entry.path_dir_src_sub@)), "Broken symlink: "@ + display(comps(entry.path_dir_src_sub@)))]);
                        assert(Seq::<Seq<char>>::empty() + seq![] =~= seq![]);
                    }
                }
                return DirStep::Done(false);
            }
            if rule == EnumCopySymlinkStrategy::CopySymlinks {
                if !within {
                    proof { lemma_logged_nothing(b0); }
                    return DirStep::Done(false);
                }
                self.builder_cp_report.add_scanned();
                self.builder_cp_report.add_matched();
                proof { lemma_counted_logged(b0, self.builder_cp_report, 1, 1, 0, 0); }
                if keep {
                    return DirStep::Place(DirPlacement::LinkKept);
                }
                return DirStep::Place(DirPlacement::LinkFlat);
            }
        }
        if keep && within {
            self.builder_cp_report.add_scanned();
            self.builder_cp_report.add_matched();
            proof { lemma_counted_logged(b0, self.builder_cp_report, 1, 1, 0, 0); }
            return DirStep::Place(DirPlacement::Directory);
        }
        proof { lemma_logged_nothing(b0); }
        DirStep::Done(true)
    }

    /// The destination of a directory-like entry: directly under the root for
    /// a flattened symlink, else at its kept-tree path.
    pub open spec fn dir_destination_of(&self, entry: &SpecDirEntry, placement: DirPlacement) -> Seq<Seq<char>> {
        destination_of(
            comps(entry.path_dir_src_sub@),
            entry.name_dir@,
            comps(self.path_dir_src@),
            comps(self.path_dir_dst@),
            placement != DirPlacement::LinkFlat,
        )
    }

    /// The destination path of a directory-like entry for its placement.
    pub fn dir_destination(&self, entry: &SpecDirEntry, placement: DirPlacement) -> (r: Vec<String>)
        ensures
            comps(r@) == self.dir_destination_of(entry, placement),
            starts_with(comps(r@), comps(self.path_dir_dst@)),
    {
        proof {
            lemma_destination_under_root(
                comps(entry.path_dir_src_sub@),
                entry.name_dir@,
                comps(self.path_dir_src@),
                comps(self.path_dir_dst@),
                placement != DirPlacement::LinkFlat,
            );
        }
        derive_destination_path(
            &entry.path_dir_src_sub,
            &entry.name_dir,
            &self.path_dir_src,
            &self.path_dir_dst,
            placement != DirPlacement::LinkFlat,
        )
    }

    /// Records an error at a destination path.
    pub fn record_failure(&mut self, path_dst: &Vec<String>, message: String)
        requires
            old(self).wf(),
        ensures
            final(self).wf(),
            Self::same_but_report(*old(self), *final(self)),
            logged(
                old(self).builder_cp_report,
                final(self).builder_cp_report,
                seq![(display(comps(path_dst@)), message@)],
                seq![],
                0,
                0,
                0,
                0,
            ),
    {
        let ghost b0 = self.builder_cp_report;
        let shown = path_display(path_dst);
        self.builder_cp_report.add_error(shown, message);
        proof { lemma_error_logged(b0, self.builder_cp_report, display(comps(path_dst@)), message@); }
    }

    /// Checks a destination against the destination root; a rejection is
    /// recorded as an error at the destination.
    fn check_dst(&mut self, path_dst: &Vec<String>, probes: &Vec<ProbeState>) -> (r: bool)
        requires
            old(self).wf(),
            starts_with(comps(path_dst@), comps(old(self).path_dir_dst@)) ==> probes@.len()
                == path_dst@.len() - old(self).path_dir_dst@.len(),
        ensures
            final(self).wf(),
            Self::same_but_report(*old(self), *final(self)),
            r == destination_safe(comps(path_dst@), comps(old(self).path_dir_dst@), probes@),
            r ==> final(self).builder_cp_report == old(self).builder_cp_report,
            !r ==> exists|e: UnsafeDestination|
                logged(
                    old(self).builder_cp_report,
                    final(self).builder_cp_report,
                    seq![(display(comps(path_dst@)), unsafe_message(e, comps(path_dst@), comps(old(self).path_dir_dst@)))],
                    seq![],
                    0,
                    0,
                    0,
                    0,
                ),
    {
        match check_destination(path_dst, &self.path_dir_dst, probes) {
            Ok(()) => true,
            Err(m) => {
                self.record_failure(path_dst, m);
                false
            },
        }
    }

    /// Directory step 2, on the checked destination: a rejected destination
    /// is an error; then the conflict rule (directory rule for a kept-tree
    /// entry, file rule for a flattened symlink). A kept-tree symlink is never
    /// merged: under "merge" it is warned about and skipped. A dry run counts
    /// a skip and creates nothing, still descending into a directory; so a
    /// dry run never has a link or directory to create.
    pub fn settle_dir_entry(
        &mut self,
        path_dst: &Vec<String>,
        placement: DirPlacement,
        probes: &Vec<ProbeState>,
        dest: DestKind,
    ) -> (r: DirAction)
        requires
            old(self).wf(),
            old(self).has_room(),
            starts_with(comps(path_dst@), comps(old(self).path_dir_dst@)) ==> probes@.len()
                == path_dst@.len() - old(self).path_dir_dst@.len(),
        ensures
            final(self).wf(),
            Self::same_but_report(*old(self), *final(self)),
            old(self).spec_cp_options.if_dry_run ==> r is Finished,
            ({
                let b0 = old(self).builder_cp_report;
                let b1 = final(self).builder_cp_report;
                let o = old(self).spec_cp_options;
                let dst = comps(path_dst@);
                let safe = destination_safe(dst, comps(old(self).path_dir_dst@), probes@);
                &&& !safe ==> r == DirAction::Finished(false) && exists|e: UnsafeDestination|
                    logged(b0, b1, seq![(display(dst), unsafe_message(e, dst, comps(old(self).path_dir_dst@)))], seq![], 0, 0, 0, 0)
                &&& safe && placement == DirPlacement::Directory ==> {
                    let stops = dir_conflict_stops(dest, o.rule_conflict_dir);
                    &&& stops ==> r == DirAction::Finished(false) && dir_conflict_effect(b0, b1, dst, dest, o.rule_conflict_dir)
                    &&& !stops && o.if_dry_run ==> r == DirAction::Finished(true) && logged(b0, b1, seq![], seq![], 0, 0, 0, 1)
                    &&& !stops && !o.if_dry_run ==> r == DirAction::MakeDir && b1 == b0
                }
                &&& safe && placement == DirPlacement::LinkKept ==> {
                    let stops = dir_conflict_stops(dest, o.rule_conflict_dir);
                    let merge = o.rule_conflict_dir == EnumCopyDirectoryConflictStrategy::Merge;
                    &&& stops ==> r == DirAction::Finished(false) && dir_conflict_effect(b0, b1, dst, dest, o.rule_conflict_dir)
                    &&& !stops && merge ==> r == DirAction::Finished(false) && logged(
                        b0, b1, seq![], seq!["Merge not applicable to symlink: "@ + display(dst)], 0, 0, 0, 1)
                    &&& !stops && !merge && o.if_dry_run ==> r == DirAction::Finished(false) && logged(b0, b1, seq![], seq![], 0, 0, 0, 1)
                    &&& !stops && !merge && !o.if_dry_run ==> r == DirAction::MakeSymlink && b1 == b0
                }
                &&& safe && placement == DirPlacement::LinkFlat ==> {
                    let stops = file_conflict_stops(dest, o.rule_conflict_file);
                    &&& stops ==> r == DirAction::Finished(false) && file_conflict_effect(b0, b1, dst, dest, o.rule_conflict_file)
                    &&& !stops && o.if_dry_run ==> r == DirAction::Finished(false) && logged(b0, b1, seq![], seq![], 0, 0, 0, 1)
                    &&& !stops && !o.if_dry_run ==> r == DirAction::MakeSymlink && b1 == b0
                }
            }),
    {
        if !self.check_dst(path_dst, probes) {
            return DirAction::Finished(false);
        }
        let ghost b0 = self.builder_cp_report;
        let dry = self.spec_cp_options.if_dry_run;
        match placement {
            DirPlacement::Directory => {
                if should_skip_dir_conflict(path_dst, dest, self.spec_cp_options.rule_conflict_dir, &mut self.builder_cp_report) {
                    return DirAction::Finished(false);
                }
                if dry {
                    self.builder_cp_report.add_skipped();
                    proof { lemma_counted_logged(b0, self.builder_cp_report, 0, 0, 0, 1); }
                    return DirAction::Finished(true);
                }
                DirAction::MakeDir
            },
            DirPlacement::LinkKept => {
                if should_skip_dir_conflict(path_dst, dest, self.spec_cp_options.rule_conflict_dir, &mut self.builder_cp_report) {
                    return DirAction::Finished(false);
                }
                if self.spec_cp_options.rule_conflict_dir == EnumCopyDirectoryConflictStrategy::Merge {
                    let mut msg = String::from_str("Merge not applicable to symlink: ");
                    msg.append(path_display(path_dst).as_str());
                    let ghost m = msg@;
                    self.builder_cp_report.add_warning(msg);
                    let ghost b1 = self.builder_cp_report;
                    self.builder_cp_report.add_skipped();
                    proof {
                        lemma_warning_logged(b0, b1, m);
                        lemma_counted_logged(b1, self.builder_cp_report, 0, 0, 0, 1);
                        lemma_logged_chain(b0, b1, self.builder_cp_report, seq![], seq![m], 0, 0, 0, 0, seq![], seq![], 0, 0, 0, 1);
                        assert(Seq::<(Seq<char>, Seq<char>)>::empty() + seq![] =~= seq![]);
                        assert(seq![m] + seq![] =~= seq![m]);
                    }
                    return DirAction::Finished(false);
                }
                if dry {
                    self.builder_cp_report.add_skipped();
                    proof { lemma_counted_logged(b0, self.builder_cp_report, 0, 0, 0, 1); }
                    return DirAction::Finished(false);
                }
                DirAction::MakeSymlink
            },
            DirPlacement::LinkFlat => {
                if should_skip_file_conflict(path_dst, dest, self.spec_cp_options.rule_conflict_file, &mut self.builder_cp_report) {
                    return DirAction::Finished(false);
                }
                if dry {
                    self.builder_cp_report.add_skipped();
                    proof { lemma_counted_logged(b0, self.builder_cp_report, 0, 0, 0, 1); }
                    return DirAction::Finished(false);
                }
                DirAction::MakeSymlink
            },
        }
    }

    /// Directory step 3, after the filesystem acted: a created link or
    /// directory counts as copied, a failure is an error at the destination.
    /// Returns whether to descend into the entry.
    pub fn finish_dir_action(&mut self, path_dst: &Vec<String>, action: DirAction, outcome: Result<(), String>) -> (r: bool)
        requires
            old(self).wf(),
            old(self).has_room(),
        ensures
            final(self).wf(),
            Self::same_but_report(*old(self), *final(self)),
            ({
                let b0 = old(self).builder_cp_report;
                let b1 = final(self).builder_cp_report;
                match action {
                    DirAction::Finished(d) => r == d && b1 == b0,
                    _ => match outcome {
                        Ok(()) => r == (action == DirAction::MakeDir) && logged(b0, b1, seq![], seq![], 0, 0, 1, 0),
                        Err(m) => !r && logged(b0, b1, seq![(display(comps(path_dst@)), m@)], seq![], 0, 0, 0, 0),
                    },
                }
            }),
    {
        match action {
            DirAction::Finished(d) => d,
            _ => match outcome {
                Ok(()) => {
                    let ghost b0 = self.builder_cp_report;
                    self.builder_cp_report.add_copied();
                    proof { lemma_counted_logged(b0, self.builder_cp_report, 0, 0, 1, 0); }
                    action == DirAction::MakeDir
                },
                Err(m) => {
                    self.record_failure(path_dst, m);
                    false
                },
            },
        }
    }

    /// Whether a file entry at `depth_value` passes the depth limit, and
    /// whether its name is then filtered out by the file patterns.
    pub open spec fn file_within(&self, depth_value: nat) -> bool {
        depth_within(depth_value, self.spec_cp_options.depth_limit, self.spec_cp_options.rule_depth_limit)
    }

    /// Whether a file entry's name is filtered out by the file patterns.
    pub open spec fn file_excluded(&self, entry: &SpecFileEntry) -> bool {
        excluded(
            compiled_ref(&self.spec_cp_pats.patterns_include_files),
            compiled_ref(&self.spec_cp_pats.patterns_exclude_files),
            self.spec_cp_options.rule_pattern,
            entry.name_file@,
        )
    }

    /// File step 1: beyond the depth limit a file is dropped uncounted;
    /// otherwise it is scanned, then matched unless the file patterns filter
    /// it out, then skipped if it is a symlink under "skip". Returns whether
    /// the file goes on to step 2.
    pub fn admit_file_entry(&mut self, entry: &SpecFileEntry, depth_value: usize) -> (r: bool)
        requires
            old(self).wf(),
            old(self).has_room(),
        ensures
            final(self).wf(),
            Self::same_but_report(*old(self), *final(self)),
            ({
                let b0 = old(self).builder_cp_report;
                let b1 = final(self).builder_cp_report;
                let skip_link = entry.if_is_symlink && old(self).spec_cp_options.rule_symlink
                    == EnumCopySymlinkStrategy::SkipSymlinks;
                if !old(self).file_within(depth_value as nat) {
                    !r && b1 == b0
                } else if old(self).file_excluded(entry) {
                    !r && logged(b0, b1, seq![], seq![], 0, 1, 0, 0)
                } else if skip_link {
                    !r && logged(b0, b1, seq![], seq![], 1, 1, 0, 1)
                } else {
                    r && logged(b0, b1, seq![], seq![], 1, 1, 0, 0)
                }
            }),
    {
        if !is_depth_within_limit(depth_value, self.spec_cp_options.depth_limit, self.spec_cp_options.rule_depth_limit) {
            return false;
        }
        let ghost b0 = self.builder_cp_report;
        self.builder_cp_report.add_scanned();
        if should_exclude_by_patterns(
            entry.name_file.as_str(),
            self.spec_cp_pats.patterns_include_files.as_ref(),
            self.spec_cp_pats.patterns_exclude_files.as_ref(),
            self.spec_cp_options.rule_pattern,
        ) {
            proof { lemma_counted_logged(b0, self.builder_cp_report, 0, 1, 0, 0); }
            return false;
        }
        self.builder_cp_report.add_matched();
        if entry.if_is_symlink && self.spec_cp_options.rule_symlink == EnumCopySymlinkStrategy::SkipSymlinks {
            self.builder_cp_report.add_skipped();
            proof { lemma_counted_logged(b0, self.builder_cp_report, 1, 1, 0, 1); }
            return false;
        }
        proof { lemma_counted_logged(b0, self.builder_cp_report, 1, 1, 0, 0); }
        true
    }

    /// Whether step 2 inspects the file's source kind: always for a plain
    /// file (the entry itself), and for a symlink under "dereference" (its target).
    pub open spec fn inspects_source(&self, entry: &SpecFileEntry) -> bool {
        !entry.if_is_symlink || self.spec_cp_options.rule_symlink == EnumCopySymlinkStrategy::Dereference
    }

    /// File step 2, on what the source is: a broken symlink under
    /// "dereference" is an error; an uninspectable source is an error; a source
    /// that is not a regular file is warned about and skipped; a plain file
    /// with other hard links is warned about and goes on. Returns whether the
    /// file goes on to its destination.
    pub fn inspect_file_entry(
        &mut self,
        entry: &SpecFileEntry,
        target_exists: bool,
        source: SourceKind,
        hard_linked: bool,
    ) -> (r: bool)
        requires
            old(self).wf(),
            old(self).has_room(),
        ensures
            final(self).wf(),
            Self::same_but_report(*old(self), *final(self)),
            ({
                let b0 = old(self).builder_cp_report;
                let b1 = final(self).builder_cp_report;
                let src = display(comps(entry.path_file_src@));
                let broken = entry.if_is_symlink && old(self).spec_cp_options.rule_symlink
                    == EnumCopySymlinkStrategy::Dereference && !target_exists;
                if broken {
                    !r && logged(b0, b1, seq![(src, "Broken symlink: "@ + src)], seq![], 0, 0, 0, 0)
                } else if old(self).inspects_source(entry) && source is Unreadable {
                    !r && logged(b0, b1, seq![(src, source->Unreadable_0@)], seq![], 0, 0, 0, 0)
                } else if old(self).inspects_source(entry) && source is Special {
                    !r && logged(
                        b0,
                        b1,
                        seq![],
                        seq![
                            if entry.if_is_symlink {
                                "Special file target skipped: "@ + src
                            } else {
                                "Special file skipped: "@ + src
                            },
                        ],
                        0,
                        0,
                        0,
                        1,
                    )
                } else if !entry.if_is_symlink && hard_linked {
                    r && logged(b0, b1, seq![], seq!["Hard link detected: "@ + src], 0, 0, 0, 0)
                } else {
                    r && b1 == b0
                }
            }),
    {
        let ghost b0 = self.builder_cp_report;
        let rule = self.spec_cp_options.rule_symlink;
        if entry.if_is_symlink && should_error_broken_symlink(target_exists, rule) {
            let shown = path_display(&entry.path_file_src);
            let mut msg = String::from_str("Broken symlink: ");
            msg.append(shown.as_str());
            self.record_failure(&entry.path_file_src, msg);
            return false;
        }
        if !entry.if_is_symlink || rule == EnumCopySymlinkStrategy::Dereference {
            match source {
                SourceKind::Unreadable(m) => {
                    self.record_failure(&entry.path_file_src, m);
                    return false;
                },
                SourceKind::Special => {
                    let mut msg = if entry.if_is_symlink {
                        String::from_str("Special file target skipped: ")
                    } else {
                        String::from_str("Special file skipped: ")
                    };
                    msg.append(path_display(&entry.path_file_src).as_str());
                    let ghost m = msg@;
                    self.builder_cp_report.add_warning(msg);
                    let ghost b1 = self.builder_cp_report;
                    self.builder_cp_report.add_skipped();
                    proof {
                        lemma_warning_logged(b0, b1, m);
                        lemma_counted_logged(b1, self.builder_cp_report, 0, 0, 0, 1);
                        lemma_logged_chain(b0, b1, self.builder_cp_report, seq![], seq![m], 0, 0, 0, 0, seq![], seq![], 0, 0, 0, 1);
                        assert(Seq::<(Seq<char>, Seq<char>)>::empty() + seq![] =~= seq![]);
                        assert(seq![m] + seq![] =~= seq![m]);
                    }
                    return false;
                },
                SourceKind::Regular => {},
            }
        }
        if !entry.if_is_symlink && hard_linked {
            let mut msg = String::from_str("Hard link detected: ");
            msg.append(path_display(&entry.path_file_src).as_str());
            let ghost m = msg@;
            self.builder_cp_report.add_warning(msg);
            proof { lemma_warning_logged(b0, self.builder_cp_report, m); }
        }
        true
    }

    /// The destination of a file entry, kept-tree or flattened per the options.
    pub open spec fn file_destination_of(&self, entry: &SpecFileEntry) -> Seq<Seq<char>> {
        destination_of(
            comps(entry.path_file_src@),
            entry.name_file@,
            comps(self.path_dir_src@),
            comps(self.path_dir_dst@),
            self.spec_cp_options.if_keep_tree,
        )
    }

    /// The destination path of a file entry.
    pub fn file_destination(&self, entry: &SpecFileEntry) -> (r: Vec<String>)
        ensures
            comps(r@) == self.file_destination_of(entry),
            starts_with(comps(r@), comps(self.path_dir_dst@)),
    {
        proof {
            lemma_destination_under_root(
                comps(entry.path_file_src@),
                entry.name_file@,
                comps(self.path_dir_src@),
                comps(self.path_dir_dst@),
                self.spec_cp_options.if_keep_tree,
            );
        }
        derive_destination_path(
            &entry.path_file_src,
            &entry.name_file,
            &self.path_dir_src,
            &self.path_dir_dst,
            self.spec_cp_options.if_keep_tree,
        )
    }

    /// File step 3: checks the destination against the destination root; a
    /// rejection is recorded as an error at the destination. Returns whether
    /// the file goes on (its parent directory is then created under keep-tree).
    pub fn check_file_destination(&mut self, path_dst: &Vec<String>, probes: &Vec<ProbeState>) -> (r: bool)
        requires
            old(self).wf(),
            starts_with(comps(path_dst@), comps(old(self).path_dir_dst@)) ==> probes@.len()
                == path_dst@.len() - old(self).path_dir_dst@.len(),
        ensures
            final(self).wf(),
            Self::same_but_report(*old(self), *final(self)),
            r == destination_safe(comps(path_dst@), comps(old(self).path_dir_dst@), probes@),
            r ==> final(self).builder_cp_report == old(self).builder_cp_report,
            !r ==> exists|e: UnsafeDestination|
                logged(
                    old(self).builder_cp_report,
                    final(self).builder_cp_report,
                    seq![(display(comps(path_dst@)), unsafe_message(e, comps(path_dst@), comps(old(self).path_dir_dst@)))],
                    seq![],
                    0,
                    0,
                    0,
                    0,
                ),
    {
        self.check_dst(path_dst, probes)
    }

    /// File step 4, on what exists at the checked destination: the file
    /// conflict rule; then a dry run counts a skip; a symlink under "copy"
    /// is to be created at once; any other file is queued for copying.
    pub fn commit_file_entry(&mut self, entry: &SpecFileEntry, path_dst: Vec<String>, dest: DestKind) -> (r: FileAction)
        requires
            old(self).wf(),
            old(self).has_room(),
            under_root(path_dst@, old(self).path_dir_dst@),
        ensures
            final(self).wf(),
            final(self).path_dir_src == old(self).path_dir_src,
            final(self).path_dir_dst == old(self).path_dir_dst,
            final(self).spec_cp_options == old(self).spec_cp_options,
            final(self).spec_cp_pats == old(self).spec_cp_pats,
            final(self).n_workers_max == old(self).n_workers_max,
            final(self).set_visited_dirs == old(self).set_visited_dirs,
            old(self).spec_cp_options.if_dry_run ==> r == FileAction::Nothing
                && final(self).l_tasks_file_copy@ == old(self).l_tasks_file_copy@,
            ({
                let b0 = old(self).builder_cp_report;
                let b1 = final(self).builder_cp_report;
                let o = old(self).spec_cp_options;
                let stops = file_conflict_stops(dest, o.rule_conflict_file);
                let tasks0 = old(self).l_tasks_file_copy@;
                let tasks1 = final(self).l_tasks_file_copy@;
                &&& stops ==> r == FileAction::Nothing && tasks1 == tasks0
                    && file_conflict_effect(b0, b1, comps(path_dst@), dest, o.rule_conflict_file)
                &&& !stops && o.if_dry_run ==> r == FileAction::Nothing && tasks1 == tasks0
                    && logged(b0, b1, seq![], seq![], 0, 0, 0, 1)
                &&& !stops && !o.if_dry_run && entry.if_is_symlink && o.rule_symlink
                    == EnumCopySymlinkStrategy::CopySymlinks ==> r == FileAction::MakeSymlink && tasks1
                    == tasks0 && b1 == b0
                &&& !stops && !o.if_dry_run && !(entry.if_is_symlink && o.rule_symlink
                    == EnumCopySymlinkStrategy::CopySymlinks) ==> r == FileAction::Queued && b1 == b0
                    && tasks1.len() == tasks0.len() + 1 && tasks1.drop_last() == tasks0
                    && comps(tasks1.last().path_file_src@) == comps(entry.path_file_src@)
                    && tasks1.last().path_file_dst@ == path_dst@
            }),
    {
        if should_skip_file_conflict(&path_dst, dest, self.spec_cp_options.rule_conflict_file, &mut self.builder_cp_report) {
            return FileAction::Nothing;
        }
        if self.spec_cp_options.if_dry_run {
            let ghost b0 = self.builder_cp_report;
            self.builder_cp_report.add_skipped();
            proof { lemma_counted_logged(b0, self.builder_cp_report, 0, 0, 0, 1); }
            return FileAction::Nothing;
        }
        if entry.if_is_symlink && self.spec_cp_options.rule_symlink == EnumCopySymlinkStrategy::CopySymlinks {
            return FileAction::MakeSymlink;
        }
        let src = copy_path(&entry.path_file_src);
        self.l_tasks_file_copy.push(SpecCopyTaskFile { path_file_src: src, path_file_dst: path_dst });
        assert(self.l_tasks_file_copy@.drop_last() =~= old(self).l_tasks_file_copy@);
        FileAction::Queued
    }

    /// Records how creating a symbolic link went: copied, or an error at the destination.
    pub fn record_link_outcome(&mut self, path_dst: &Vec<String>, outcome: Result<(), String>)
        requires
            old(self).wf(),
            old(self).has_room(),
        ensures
            final(self).wf(),
            Self::same_but_report(*old(self), *final(self)),
            match outcome {
                Ok(()) => logged(old(self).builder_cp_report, final(self).builder_cp_report, seq![], seq![], 0, 0, 1, 0),
                Err(m) => logged(
                    old(self).builder_cp_report,
                    final(self).builder_cp_report,
                    seq![(display(comps(path_dst@)), m@)],
                    seq![],
                    0,
                    0,
                    0,
                    0,
                ),
            },
    {
        match outcome {
            Ok(()) => {
                let ghost b0 = self.builder_cp_report;
                self.builder_cp_report.add_copied();
                proof { lemma_counted_logged(b0, self.builder_cp_report, 0, 0, 1, 0); }
            },
            Err(m) => {
                self.record_failure(path_dst, m);
            },
        }
    }

    /// Whether a directory entry passes the directory patterns (always, when
    /// no directory pattern list is configured).
    pub open spec fn dir_kept(&self, d: SpecDirEntry) -> bool {
        (self.spec_cp_pats.patterns_include_dirs is None && self.spec_cp_pats.patterns_exclude_dirs is None)
            || !excluded(
            compiled_ref(&self.spec_cp_pats.patterns_include_dirs),
            compiled_ref(&self.spec_cp_pats.patterns_exclude_dirs),
            self.spec_cp_options.rule_pattern,
            d.name_dir@,
        )
    }

    /// Whether subdirectories of entries at `depth_value` are still walked:
    /// not once the depth exceeds the limit.
    pub open spec fn descends_below(&self, depth_value: nat) -> bool {
        !(self.spec_cp_options.depth_limit is Some && depth_value > self.spec_cp_options.depth_limit->0)
    }

    /// Plans one listed directory whose entries are at `depth_value`: the
    /// subdirectories that pass the directory patterns (none once the depth
    /// exceeds the limit) and all files, each list in name order.
    pub fn plan_listing(&self, dirs: Vec<SpecDirEntry>, files: Vec<SpecFileEntry>, depth_value: usize) -> (r: (
        Vec<SpecDirEntry>,
        Vec<SpecFileEntry>,
    ))
        ensures
            dirs_sorted(r.0@),
            r.0@.to_multiset() == planned_dirs(*self, dirs@, depth_value as nat).to_multiset(),
            files_sorted(r.1@),
            r.1@.to_multiset() == files@.to_multiset(),
    {
        let ghost pred = |d: SpecDirEntry| self.dir_kept(d);
        let mut out_dirs: Vec<SpecDirEntry> = Vec::new();
        let descend = match self.spec_cp_options.depth_limit {
            Some(limit) => depth_value <= limit,
            None => true,
        };
        if descend {
            let ghost orig = dirs@;
            let mut rest = dirs;
            let has_dir_patterns = self.spec_cp_pats.patterns_include_dirs.is_some()
                || self.spec_cp_pats.patterns_exclude_dirs.is_some();
            assert(orig.subrange(orig.len() as int, orig.len() as int).filter(pred) =~= Seq::<SpecDirEntry>::empty());
            while rest.len() > 0
                invariant
                    rest@ == orig.subrange(0, rest@.len() as int),
                    rest@.len() <= orig.len(),
                    dirs_sorted(out_dirs@),
                    out_dirs@.to_multiset() == orig.subrange(rest@.len() as int, orig.len() as int).filter(pred).to_multiset(),
                    has_dir_patterns == !(self.spec_cp_pats.patterns_include_dirs is None
                        && self.spec_cp_pats.patterns_exclude_dirs is None),
                    pred == (|d: SpecDirEntry| self.dir_kept(d)),
                decreases rest@.len(),
            {
                let ghost n0 = rest@.len() as int;
                let x = rest.pop().unwrap();
                let ghost consumed = orig.subrange(n0, orig.len() as int);
                proof {
                    assert(orig.subrange(n0 - 1, orig.len() as int) =~= seq![x] + consumed);
                    consumed.lemma_filter_prepend(x, pred);
                    assert(rest@ =~= orig.subrange(0, n0 - 1));
                }
                let keep = !has_dir_patterns || !should_exclude_by_patterns(
                    x.name_dir.as_str(),
                    self.spec_cp_pats.patterns_include_dirs.as_ref(),
                    self.spec_cp_pats.patterns_exclude_dirs.as_ref(),
                    self.spec_cp_options.rule_pattern,
                );
                proof {
                    let f = consumed.filter(pred);
                    assert(keep == pred(x));
                    if keep {
                        assert(f.insert(0, x) =~= seq![x] + f);
                        to_multiset_insert(f, 0, x);
                    } else {
                        assert(Seq::<SpecDirEntry>::empty() + f =~= f);
                    }
                }
                if keep {
                    insert_dir_sorted(&mut out_dirs, x);
                }
            }
            assert(orig.subrange(0, orig.len() as int) =~= orig);
        }
        let ghost forig = files@;
        let mut out_files: Vec<SpecFileEntry> = Vec::new();
        let mut frest = files;
        assert(forig.subrange(forig.len() as int, forig.len() as int) =~= out_files@);
        while frest.len() > 0
            invariant
                frest@ == forig.subrange(0, frest@.len() as int),
                frest@.len() <= forig.len(),
                files_sorted(out_files@),
                out_files@.to_multiset() == forig.subrange(frest@.len() as int, forig.len() as int).to_multiset(),
            decreases frest@.len(),
        {
            let ghost n0 = frest@.len() as int;
            let x = frest.pop().unwrap();
            proof {
                let consumed = forig.subrange(n0, forig.len() as int);
                assert(forig.subrange(n0 - 1, forig.len() as int) =~= consumed.insert(0, x));
                to_multiset_insert(consumed, 0, x);
                assert(frest@ =~= forig.subrange(0, n0 - 1));
            }
            insert_file_sorted(&mut out_files, x);
        }
        assert(forig.subrange(0, forig.len() as int) =~= forig);
        (out_dirs, out_files)
    }

    /// Before listing a directory under "dereference": a directory whose
    /// (device, inode) could not be read is warned about and not walked; one
    /// already visited is a symlink loop, warned about and not walked; any
    /// other is recorded as visited. Under other policies every directory is
    /// walked. Returns whether to list the directory.
    pub fn enter_directory(&mut self, path_dir: &Vec<String>, identity: Option<(u64, u64)>) -> (r: bool)
        requires
            old(self).wf(),
        ensures
            final(self).wf(),
            final(self).path_dir_src == old(self).path_dir_src,
            final(self).path_dir_dst == old(self).path_dir_dst,
            final(self).spec_cp_options == old(self).spec_cp_options,
            final(self).spec_cp_pats == old(self).spec_cp_pats,
            final(self).n_workers_max == old(self).n_workers_max,
            final(self).l_tasks_file_copy == old(self).l_tasks_file_copy,
            ({
                let b0 = old(self).builder_cp_report;
                let b1 = final(self).builder_cp_report;
                let v0 = old(self).set_visited_dirs@;
                let v1 = final(self).set_visited_dirs@;
                let shown = display(comps(path_dir@));
                if old(self).spec_cp_options.rule_symlink != EnumCopySymlinkStrategy::Dereference {
                    r && b1 == b0 && v1 == v0
                } else {
                    match identity {
                        None => !r && v1 == v0 && logged(b0, b1, seq![], seq!["Failed to stat directory: "@ + shown], 0, 0, 0, 0),
                        Some(id) => if v0.contains(id) {
                            !r && v1 == v0 && logged(b0, b1, seq![], seq!["Symlink loop detected: "@ + shown], 0, 0, 0, 0)
                        } else {
                            r && v1 == v0.push(id) && b1 == b0
                        },
                    }
                }
            }),
    {
        if self.spec_cp_options.rule_symlink != EnumCopySymlinkStrategy::Dereference {
            return true;
        }
        let ghost b0 = self.builder_cp_report;
        match identity {
            None => {
                let mut msg = String::from_str("Failed to stat directory: ");
                msg.append(path_display(path_dir).as_str());
                let ghost m = msg@;
                self.builder_cp_report.add_warning(msg);
                proof { lemma_warning_logged(b0, self.builder_cp_report, m); }
                false
            },
            Some(id) => {
                if identity_seen(&self.set_visited_dirs, id) {
                    let mut msg = String::from_str("Symlink loop detected: ");
                    msg.append(path_display(path_dir).as_str());
                    let ghost m = msg@;
                    self.builder_cp_report.add_warning(msg);
                    proof { lemma_warning_logged(b0, self.builder_cp_report, m); }
                    return false;
                }
                self.set_visited_dirs.push(id);
                assert(!old(self).set_visited_dirs@.contains(id));
                true
            },
        }
    }

    /// Hands out the queued copy tasks, in queue order, and empties the queue.
    pub fn take_tasks(&mut self) -> (r: Vec<SpecCopyTaskFile>)
        requires
            old(self).wf(),
        ensures
            final(self).wf(),
            r@ == old(self).l_tasks_file_copy@,
            final(self).l_tasks_file_copy@.len() == 0,
            final(self).builder_cp_report == old(self).builder_cp_report,
            final(self).path_dir_dst == old(self).path_dir_dst,
            forall|i: int| 0 <= i < r@.len() ==> under_root(#[trigger] r@[i].path_file_dst@, old(self).path_dir_dst@),
    {
        let mut r: Vec<SpecCopyTaskFile> = Vec::new();
        std::mem::swap(&mut r, &mut self.l_tasks_file_copy);
        r
    }

    /// Merges the outcomes of executed copies into the report: each success
    /// counts as copied, each failure is an error at its destination, in order.
    pub fn record_copy_results(&mut self, outcomes: Vec<SpecCopyOutcome>)
        requires
            old(self).wf(),
            old(self).builder_cp_report.cnt_copied + outcomes@.len() <= u64::MAX,
        ensures
            final(self).wf(),
            Self::same_but_report(*old(self), *final(self)),
            logged(
                old(self).builder_cp_report,
                final(self).builder_cp_report,
                outcome_errors(outcomes@),
                seq![],
                0,
                0,
                count_ok(outcomes@) as int,
                0,
            ),
    {
        let ghost b0 = self.builder_cp_report;
        let ghost all = outcomes@;
        proof { lemma_logged_nothing(b0); }
        let mut i: usize = 0;
        assert(all.subrange(0, 0) =~= Seq::<SpecCopyOutcome>::empty());
        while i < outcomes.len()
            invariant
                all == outcomes@,
                i <= all.len(),
                self.wf(),
                Self::same_but_report(*old(self), *self),
                b0 == old(self).builder_cp_report,
                b0.cnt_copied + all.len() <= u64::MAX,
                count_ok(all.subrange(0, i as int)) <= i,
                logged(b0, self.builder_cp_report, outcome_errors(all.subrange(0, i as int)), seq![], 0, 0, count_ok(all.subrange(0, i as int)) as int, 0),
            decreases all.len() - i,
        {
            let ghost before = self.builder_cp_report;
            let ghost pre = all.subrange(0, i as int);
            let ghost next = all.subrange(0, i + 1);
            assert(next.drop_last() =~= pre);
            assert(next.last() == all[i as int]);
            match &outcomes[i] {
                SpecCopyOutcome { path_file_dst, result: Ok(()) } => {
                    self.builder_cp_report.add_copied();
                    proof {
                        lemma_counted_logged(before, self.builder_cp_report, 0, 0, 1, 0);
                        lemma_logged_chain(b0, before, self.builder_cp_report,
                            outcome_errors(pre), seq![], 0, 0, count_ok(pre) as int, 0,
                            seq![], seq![], 0, 0, 1, 0);
                        assert(outcome_errors(pre) + seq![] =~= outcome_errors(next));
                        assert(Seq::<Seq<char>>::empty() + seq![] =~= seq![]);
                    }
                },
                SpecCopyOutcome { path_file_dst, result: Err(m) } => {
                    self.record_failure(path_file_dst, m.clone());
                    proof {
                        lemma_logged_chain(b0, before, self.builder_cp_report,
                            outcome_errors(pre), seq![], 0, 0, count_ok(pre) as int, 0,
                            seq![(display(comps(path_file_dst@)), m@)], seq![], 0, 0, 0, 0);
                        assert(Seq::<Seq<char>>::empty() + seq![] =~= seq![]);
                    }
                },
            }
            i = i + 1;
        }
        assert(all.subrange(0, all.len() as int) =~= all);
    }

    /// Ends the run: the finished report.
    pub fn finish(self) -> (r: ReportCopy)
        ensures
            r.cnt_matched == self.builder_cp_report.cnt_matched,
            r.cnt_scanned == self.builder_cp_report.cnt_scanned,
            r.cnt_copied == self.builder_cp_report.cnt_copied,
            r.cnt_skipped == self.builder_cp_report.cnt_skipped,
            r.errors == self.builder_cp_report.errors,
            r.warnings == self.builder_cp_report.warnings,
    {
        self.builder_cp_report.build()
    }
}

/// Whether a (device, inode) identity is in the visited list.
fn identity_seen(visited: &Vec<(u64, u64)>, id: (u64, u64)) -> (r: bool)
    ensures
        r == visited@.contains(id),
{
    let mut i: usize = 0;
    while i < visited.len()
        invariant
            i <= visited@.len(),
            forall|k: int| 0 <= k < i ==> visited@[k] != id,
        decreases visited@.len() - i,
    {
        if visited[i].0 == id.0 && visited[i].1 == id.1 {
            assert(visited@[i as int] == id);
            return true;
        }
        i = i + 1;
    }
    false
}

/// How many outcomes succeeded.
pub open spec fn count_ok(s: Seq<SpecCopyOutcome>) -> nat
    decreases s.len(),
{
    if s.len() == 0 {
        0
    } else {
        count_ok(s.drop_last()) + if s.last().result is Ok {
            1nat
        } else {
            0nat
        }
    }
}

/// The errors that the failed outcomes record, in order.
pub open spec fn outcome_errors(s: Seq<SpecCopyOutcome>) -> Seq<(Seq<char>, Seq<char>)>
    decreases s.len(),
{
    if s.len() == 0 {
        seq![]
    } else {
        outcome_errors(s.drop_last()) + match s.last().result {
            Ok(()) => seq![],
            Err(m) => seq![(display(comps(s.last().path_file_dst@)), m@)],
        }
    }
}

/// What `plan_listing` yields for directories: the kept ones when the walk
/// descends at this depth, else none.
pub open spec fn planned_dirs(ctx: SpecCopyContext, dirs: Seq<SpecDirEntry>, depth_value: nat) -> Seq<SpecDirEntry> {
    if ctx.descends_below(depth_value) {
        dirs.filter(|d: SpecDirEntry| ctx.dir_kept(d))
    } else {
        Seq::empty()
    }
}

/// Rejects a run whose source and destination overlap once resolved: one
/// contains the other. The error carries both directories as given.
pub fn check_overlap(
    source: String,
    destination: String,
    src_resolved: &Vec<String>,
    dst_resolved: &Vec<String>,
) -> (r: Result<(), CopyTreeError>)
    ensures
        r is Ok <==> !(starts_with(comps(dst_resolved@), comps(src_resolved@)) || starts_with(
            comps(src_resolved@),
            comps(dst_resolved@),
        )),
        r is Err ==> r->Err_0 == (CopyTreeError::SourceDestinationOverlap { source, destination }),
{
    if is_overlap(src_resolved, dst_resolved) {
        return Err(CopyTreeError::SourceDestinationOverlap { source, destination });
    }
    Ok(())
}

/// Filtering by patterns depends on nothing but the name, the compiled
/// lists and the mode: two equal names get the same answer, and filtering a
/// list that was already filtered keeps all of it.
pub proof fn lemma_filtering_idempotent(
    ctx: SpecCopyContext,
    name_a: Seq<char>,
    name_b: Seq<char>,
    dirs: Seq<SpecDirEntry>,
)
    ensures
        name_a == name_b ==> excluded(
            compiled_ref(&ctx.spec_cp_pats.patterns_include_files),
            compiled_ref(&ctx.spec_cp_pats.patterns_exclude_files),
            ctx.spec_cp_options.rule_pattern,
            name_a,
        ) == excluded(
            compiled_ref(&ctx.spec_cp_pats.patterns_include_files),
            compiled_ref(&ctx.spec_cp_pats.patterns_exclude_files),
            ctx.spec_cp_options.rule_pattern,
            name_b,
        ),
        dirs.filter(|d: SpecDirEntry| ctx.dir_kept(d)).filter(|d: SpecDirEntry| ctx.dir_kept(d))
            == dirs.filter(|d: SpecDirEntry| ctx.dir_kept(d)),
{
    let pred = |d: SpecDirEntry| ctx.dir_kept(d);
    let f = dirs.filter(pred);
    assert forall|i: int| 0 <= i < f.len() implies pred(#[trigger] f[i]) by {
        dirs.lemma_filter_pred(pred, i);
    }
    lemma_filter_all_kept(f, pred);
}

proof fn lemma_filter_all_kept(s: Seq<SpecDirEntry>, pred: spec_fn(SpecDirEntry) -> bool)
    requires
        forall|i: int| 0 <= i < s.len() ==> pred(#[trigger] s[i]),
    ensures
        s.filter(pred) == s,
    decreases s.len(),
{
    reveal(Seq::filter);
    if s.len() > 0 {
        lemma_filter_all_kept(s.drop_last(), pred);
        assert(s.drop_last().push(s.last()) =~= s);
    } else {
        assert(s.filter(pred) =~= s);
    }
}

/// Every destination that passes the safety check lies strictly under the
/// destination root with no `.` or `..` component below it (so it resolves
/// under the root), and no component from the root down to it (itself
/// included) was a symbolic link when it was checked.
pub proof fn lemma_safe_destination(item: Seq<Seq<char>>, root: Seq<Seq<char>>, probes: Seq<ProbeState>)
    requires
        destination_safe(item, root, probes),
    ensures
        starts_with(item, root),
        item.len() > root.len(),
        forall|k: int| root.len() <= k < item.len() ==> !relative_step(#[trigger] item[k]),
        forall|k: int| 0 <= k < probes.len() ==> !(#[trigger] probes[k] is Symlink),
{
    assert forall|k: int| 0 <= k < probes.len() implies !(#[trigger] probes[k] is Symlink) by {
        assert(probe_clear(probes[k]));
    }
}

/// In every state of a run the report has matched no more entries than it
/// scanned, and every queued copy writes strictly under the destination root.
pub proof fn lemma_run_consistent(ctx: SpecCopyContext)
    requires
        ctx.wf(),
    ensures
        ctx.builder_cp_report.cnt_scanned >= ctx.builder_cp_report.cnt_matched,
        forall|i: int|
            0 <= i < ctx.l_tasks_file_copy@.len() ==> starts_with(
                comps(#[trigger] ctx.l_tasks_file_copy@[i].path_file_dst@),
                comps(ctx.path_dir_dst@),
            ),
{
    assert forall|i: int| 0 <= i < ctx.l_tasks_file_copy@.len() implies starts_with(
        comps(#[trigger] ctx.l_tasks_file_copy@[i].path_file_dst@),
        comps(ctx.path_dir_dst@),
    ) by {
        assert(under_root(ctx.l_tasks_file_copy@[i].path_file_dst@, ctx.path_dir_dst@));
    }
}

/// One listed directory of the walk: its subdirectories not yet handled
/// (held last-first), its files, and the depth of its entries.
pub struct WalkFrame {
    dirs_pending: Vec<SpecDirEntry>,
    files: Vec<SpecFileEntry>,
    depth: usize,
}

/// What the walk does next.
pub enum WalkStep {
    /// Handle this directory entry at this depth (and walk it if told to).
    Dir(SpecDirEntry, usize),
    /// Handle these files, in order, at this depth.
    Files(Vec<SpecFileEntry>, usize),
    /// Nothing is left.
    Finished,
}

/// The depth-first walk: a stack of listed directories. A directory's
/// subdirectories come one at a time, each walked before the next, and its
/// files come once all of them are done.
pub struct SpecWalkStack {
    frames: Vec<WalkFrame>,
}

impl WalkFrame {
    /// The pending subdirectories, first to come first.
    pub closed spec fn pending(&self) -> Seq<SpecDirEntry> {
        self.dirs_pending@.reverse()
    }

    /// The frame's files.
    pub closed spec fn file_list(&self) -> Seq<SpecFileEntry> {
        self.files@
    }

    /// The depth of the frame's entries.
    pub closed spec fn level(&self) -> nat {
        self.depth as nat
    }
}

impl SpecWalkStack {
    /// The frames, outermost first.
    pub closed spec fn view_frames(&self) -> Seq<WalkFrame> {
        self.frames@
    }

    /// The walk's invariant: the frames form the chain of listed directories
    /// from the source root down, so the entries of the frame at position `k`
    /// lie at depth `k` (the root's own entries at depth 0).
    pub open spec fn wf(&self) -> bool {
        forall|k: int| 0 <= k < self.view_frames().len() ==> #[trigger] self.view_frames()[k].level() == k
    }

    /// The depth of the entries of the next directory listed.
    pub fn next_depth(&self) -> (r: usize)
        ensures
            r == self.view_frames().len(),
    {
        self.frames.len()
    }

    /// An empty walk.
    pub fn new() -> (r: Self)
        ensures
            r.view_frames().len() == 0,
            r.wf(),
    {
        SpecWalkStack { frames: Vec::new() }
    }

    /// Starts walking a listed directory, one level below the innermost one:
    /// its subdirectories come next, in the given order.
    pub fn push_listing(&mut self, dirs: Vec<SpecDirEntry>, files: Vec<SpecFileEntry>)
        requires
            old(self).wf(),
        ensures
            final(self).wf(),
            final(self).view_frames().len() == old(self).view_frames().len() + 1,
            final(self).view_frames().drop_last() == old(self).view_frames(),
            final(self).view_frames().last().pending() == dirs@,
            final(self).view_frames().last().file_list() == files@,
            final(self).view_frames().last().level() == old(self).view_frames().len(),
    {
        let depth_value = self.frames.len();
        let ghost orig = dirs@;
        let mut rest = dirs;
        let mut rev: Vec<SpecDirEntry> = Vec::new();
        assert(orig.subrange(orig.len() as int, orig.len() as int).reverse() =~= rev@);
        while rest.len() > 0
            invariant
                rest@ == orig.subrange(0, rest@.len() as int),
                rest@.len() <= orig.len(),
                rev@ == orig.subrange(rest@.len() as int, orig.len() as int).reverse(),
            decreases rest@.len(),
        {
            let ghost n0 = rest@.len() as int;
            let x = rest.pop().unwrap();
            rev.push(x);
            assert(rest@ =~= orig.subrange(0, n0 - 1));
            assert(rev@.reverse() =~= orig.subrange(n0 - 1, orig.len() as int));
            assert(rev@ =~= orig.subrange(n0 - 1, orig.len() as int).reverse()) by {
                assert(rev@ =~= rev@.reverse().reverse());
            }
        }
        assert(rev@.reverse() =~= orig) by {
            assert(orig.subrange(0, orig.len() as int) =~= orig);
            assert(rev@.reverse() =~= orig.reverse().reverse());
        }
        self.frames.push(WalkFrame { dirs_pending: rev, files, depth: depth_value });
        assert(self.frames@.drop_last() =~= old(self).frames@);
        assert forall|k: int| 0 <= k < self.view_frames().len() implies #[trigger] self.view_frames()[k].level() == k by {
            if k < old(self).frames@.len() {
                assert(self.frames@[k] == old(self).frames@[k]);
                assert(old(self).view_frames()[k].level() == k);
            }
        }
    }

    /// The walk's next step: the innermost directory's next subdirectory,
    /// else its files (and the directory is done), else the end.
    pub fn next_step(&mut self) -> (r: WalkStep)
        requires
            old(self).wf(),
        ensures
            final(self).wf(),
            r matches WalkStep::Dir(_, d) ==> d + 1 == final(self).view_frames().len(),
            r matches WalkStep::Files(_, d) ==> d == final(self).view_frames().len(),
            ({
                let f0 = old(self).view_frames();
                let f1 = final(self).view_frames();
                if f0.len() == 0 {
                    r is Finished && f1.len() == 0
                } else if f0.last().pending().len() > 0 {
                    &&& r == WalkStep::Dir(f0.last().pending()[0], f0.last().level() as usize)
                    &&& f1.len() == f0.len()
                    &&& f1.drop_last() == f0.drop_last()
                    &&& f1.last().pending() == f0.last().pending().drop_first()
                    &&& f1.last().file_list() == f0.last().file_list()
                    &&& f1.last().level() == f0.last().level()
                } else {
                    &&& r matches WalkStep::Files(files, d) && files@ == f0.last().file_list() && d == f0.last().level()
                    &&& f1 == f0.drop_last()
                }
            }),
    {
        let n = self.frames.len();
        if n == 0 {
            return WalkStep::Finished;
        }
        let mut frame = self.frames.pop().unwrap();
        let ghost fr0 = frame;
        assert(old(self).view_frames()[n - 1].level() == n - 1);
        assert forall|k: int| 0 <= k < self.view_frames().len() implies #[trigger] self.view_frames()[k].level() == k by {
            assert(self.frames@[k] == old(self).frames@[k]);
            assert(old(self).view_frames()[k].level() == k);
        }
        if frame.dirs_pending.len() > 0 {
            let entry = frame.dirs_pending.pop().unwrap();
            let depth_value = frame.depth;
            proof {
                assert(fr0.dirs_pending@.reverse()[0] == entry);
                assert(frame.dirs_pending@.reverse() =~= fr0.dirs_pending@.reverse().drop_first());
            }
            let ghost mid = self.frames@;
            self.frames.push(frame);
            assert(self.frames@.drop_last() =~= old(self).frames@.drop_last());
            assert forall|k: int| 0 <= k < self.view_frames().len() implies #[trigger] self.view_frames()[k].level() == k by {
                if k < mid.len() {
                    assert(self.frames@[k] == mid[k]);
                    assert(self.frames@[k] == old(self).frames@[k]);
                    assert(old(self).view_frames()[k].level() == k);
                }
            }
            WalkStep::Dir(entry, depth_value)
        } else {
            assert(self.frames@ =~= old(self).frames@.drop_last());
            WalkStep::Files(frame.files, frame.depth)
        }
    }
}

/// Directory entries in name order (each name no later than the next).
pub open spec fn dirs_sorted(s: Seq<SpecDirEntry>) -> bool {
    forall|i: int| 0 <= i < s.len() - 1 ==> !seq_lt(#[trigger] s[i + 1].name_dir@, s[i].name_dir@)
}

/// File entries in name order (each name no later than the next).
pub open spec fn files_sorted(s: Seq<SpecFileEntry>) -> bool {
    forall|i: int| 0 <= i < s.len() - 1 ==> !seq_lt(#[trigger] s[i + 1].name_file@, s[i].name_file@)
}

/// Inserts a directory entry into a name-ordered list, keeping the order.
fn insert_dir_sorted(r: &mut Vec<SpecDirEntry>, x: SpecDirEntry)
    requires
        dirs_sorted(old(r)@),
    ensures
        dirs_sorted(final(r)@),
        final(r)@.to_multiset() == old(r)@.to_multiset().insert(x),
{
    let mut p: usize = 0;
    while p < r.len() && !str_lt(x.name_dir.as_str(), r[p].name_dir.as_str())
        invariant
            p <= r@.len(),
            r@ == old(r)@,
            forall|k: int| 0 <= k < p ==> !seq_lt(x.name_dir@, #[trigger] r@[k].name_dir@),
        decreases r@.len() - p,
    {
        p = p + 1;
    }
    let ghost s0 = r@;
    proof {
        if p < s0.len() {
            lemma_seq_lt_asymmetric(x.name_dir@, s0[p as int].name_dir@);
        }
        to_multiset_insert(s0, p as int, x);
    }
    r.insert(p, x);
    assert forall|i: int| 0 <= i < r@.len() - 1 implies !seq_lt(#[trigger] r@[i + 1].name_dir@, r@[i].name_dir@) by {
        if i + 1 < p {
            assert(r@[i] == s0[i] && r@[i + 1] == s0[i + 1]);
            assert(!seq_lt(s0[i + 1].name_dir@, s0[i].name_dir@));
        } else if i + 1 == p {
            assert(r@[i] == s0[i] && r@[i + 1] == x);
            assert(!seq_lt(x.name_dir@, s0[i].name_dir@));
        } else if i == p {
            assert(r@[i + 1] == s0[i] && r@[i] == x);
            assert(seq_lt(x.name_dir@, s0[i].name_dir@));
        } else {
            assert(r@[i] == s0[i - 1] && r@[i + 1] == s0[i]);
            let j = i - 1;
            assert(j + 1 == i);
            assert(!seq_lt(s0[j + 1].name_dir@, s0[j].name_dir@));
        }
    }
}

/// Inserts a file entry into a name-ordered list, keeping the order.
fn insert_file_sorted(r: &mut Vec<SpecFileEntry>, x: SpecFileEntry)
    requires
        files_sorted(old(r)@),
    ensures
        files_sorted(final(r)@),
        final(r)@.to_multiset() == old(r)@.to_multiset().insert(x),
{
    let mut p: usize = 0;
    while p < r.len() && !str_lt(x.name_file.as_str(), r[p].name_file.as_str())
        invariant
            p <= r@.len(),
            r@ == old(r)@,
            forall|k: int| 0 <= k < p ==> !seq_lt(x.name_file@, #[trigger] r@[k].name_file@),
        decreases r@.len() - p,
    {
        p = p + 1;
    }
    let ghost s0 = r@;
    proof {
        if p < s0.len() {
            lemma_seq_lt_asymmetric(x.name_file@, s0[p as int].name_file@);
        }
        to_multiset_insert(s0, p as int, x);
    }
    r.insert(p, x);
    assert forall|i: int| 0 <= i < r@.len() - 1 implies !seq_lt(#[trigger] r@[i + 1].name_file@, r@[i].name_file@) by {
        if i + 1 < p {
            assert(r@[i] == s0[i] && r@[i + 1] == s0[i + 1]);
            assert(!seq_lt(s0[i + 1].name_file@, s0[i].name_file@));
        } else if i + 1 == p {
            assert(r@[i] == s0[i] && r@[i + 1] == x);
            assert(!seq_lt(x.name_file@, s0[i].name_file@));
        } else if i == p {
            assert(r@[i + 1] == s0[i] && r@[i] == x);
            assert(seq_lt(x.name_file@, s0[i].name_file@));
        } else {
            assert(r@[i] == s0[i - 1] && r@[i + 1] == s0[i]);
            let j = i - 1;
            assert(j + 1 == i);
            assert(!seq_lt(s0[j + 1].name_file@, s0[j].name_file@));
        }
    }
}

/// A component-by-component copy of a path.
pub fn copy_path(p: &Vec<String>) -> (r: Vec<String>)
    ensures
        r@.len() == p@.len(),
        comps(r@) == comps(p@),
{
    let mut r: Vec<String> = Vec::new();
    let mut i: usize = 0;
    while i < p.len()
        invariant
            i <= p@.len(),
            r@.len() == i,
            forall|k: int| 0 <= k < i ==> (#[trigger] r@[k])@ == p@[k]@,
        decreases p@.len() - i,
    {
        r.push(p[i].clone());
        i = i + 1;
    }
    assert(comps(r@) =~= comps(p@));
    r
}

} // verus!