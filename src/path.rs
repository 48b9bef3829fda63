//! Paths as sequences of components, destination derivation, the
//! destination-safety rule, the depth rule and the worker-count rule.
//!
//! A path is absolute and held as its components after the filesystem root:
//! `/a/b` is `["a", "b"]`, and `/` is the empty sequence.
use vstd::prelude::*;

use crate::spec::EnumCopyDepthLimitMode;

verus! {

/// The character sequences of a path's components.
pub open spec fn comps(p: Seq<String>) -> Seq<Seq<char>> {
    p.map_values(|c: String| c@)
}

/// Whether `base` is a leading part of `path`, component by component.
pub open spec fn starts_with(path: Seq<Seq<char>>, base: Seq<Seq<char>>) -> bool {
    base.len() <= path.len() && path.subrange(0, base.len() as int) == base
}

/// The display text of a path's components: `/` for the root, else each
/// component after a `/`.
pub open spec fn display(p: Seq<Seq<char>>) -> Seq<char>
    decreases p.len(),
{
    if p.len() == 0 {
        "/"@
    } else if p.len() == 1 {
        "/"@ + p[0]
    } else {
        display(p.drop_last()) + "/"@ + p.last()
    }
}

/// The display text of a path.
pub fn path_display(p: &Vec<String>) -> (r: String)
    ensures
        r@ == display(comps(p@)),
{
    if p.len() == 0 {
        return String::from_str("/");
    }
    let mut r = String::from_str("/");
    r.append(p[0].as_str());
    assert(comps(p@).subrange(0, 1) =~= seq![p@[0]@]);
    let mut i: usize = 1;
    while i < p.len()
        invariant
            1 <= i <= p@.len(),
            r@ == display(comps(p@).subrange(0, i as int)),
        decreases p@.len() - i,
    {
        let ghost prev = comps(p@).subrange(0, i as int);
        let ghost next = comps(p@).subrange(0, i + 1);
        assert(next.drop_last() =~= prev);
        r.append("/");
        r.append(p[i].as_str());
        i = i + 1;
    }
    assert(comps(p@).subrange(0, p@.len() as int) =~= comps(p@));
    r
}

fn component_eq(a: &String, b: &String) -> (r: bool)
    ensures
        r == (a@ == b@),
{
    crate::text::str_eq(a.as_str(), b.as_str())
}

/// Whether `path` lies under `base` (or is `base`).
pub fn is_relative_to_base(path: &Vec<String>, base: &Vec<String>) -> (r: bool)
    ensures
        r == starts_with(comps(path@), comps(base@)),
{
    if base.len() > path.len() {
        return false;
    }
    let mut i: usize = 0;
    while i < base.len()
        invariant
            base@.len() <= path@.len(),
            i <= base@.len(),
            forall|k: int| 0 <= k < i ==> path@[k]@ == base@[k]@,
        decreases base@.len() - i,
    {
        if !component_eq(&path[i], &base[i]) {
            assert(comps(path@).subrange(0, base@.len() as int)[i as int] != comps(base@)[i as int]);
            return false;
        }
        i = i + 1;
    }
    assert(comps(path@).subrange(0, base@.len() as int) =~= comps(base@));
    true
}

/// Whether one of two resolved directories contains the other.
pub fn is_overlap(src_resolved: &Vec<String>, dst_resolved: &Vec<String>) -> (r: bool)
    ensures
        r == (starts_with(comps(dst_resolved@), comps(src_resolved@)) || starts_with(
            comps(src_resolved@),
            comps(dst_resolved@),
        )),
{
    is_relative_to_base(dst_resolved, src_resolved) || is_relative_to_base(src_resolved, dst_resolved)
}

/// The destination of an item: under keep-tree, the destination root joined
/// with the item's path relative to the source root (or with its name when it
/// does not lie under the source root); flattened, the root joined with the name.
pub open spec fn destination_of(
    path_src: Seq<Seq<char>>,
    name: Seq<char>,
    path_dir_src: Seq<Seq<char>>,
    path_dir_dst: Seq<Seq<char>>,
    if_keep_tree: bool,
) -> Seq<Seq<char>> {
    if if_keep_tree && starts_with(path_src, path_dir_src) {
        path_dir_dst + path_src.subrange(path_dir_src.len() as int, path_src.len() as int)
    } else {
        path_dir_dst.push(name)
    }
}

/// Derives the destination path of an item, kept-tree or flattened.
pub fn derive_destination_path(
    path_src: &Vec<String>,
    path_item_name: &String,
    path_dir_src: &Vec<String>,
    path_dir_dst: &Vec<String>,
    if_keep_tree: bool,
) -> (r: Vec<String>)
    ensures
        comps(r@) == destination_of(
            comps(path_src@),
            path_item_name@,
            comps(path_dir_src@),
            comps(path_dir_dst@),
            if_keep_tree,
        ),
{
    let mut r: Vec<String> = Vec::new();
    let mut i: usize = 0;
    while i < path_dir_dst.len()
        invariant
            i <= path_dir_dst@.len(),
            r@.len() == i,
            forall|k: int| 0 <= k < i ==> (#[trigger] r@[k])@ == path_dir_dst@[k]@,
        decreases path_dir_dst@.len() - i,
    {
        r.push(path_dir_dst[i].clone());
        i = i + 1;
    }
    assert(comps(r@) =~= comps(path_dir_dst@));
    if if_keep_tree && is_relative_to_base(path_src, path_dir_src) {
        let start = path_dir_src.len();
        let mut j: usize = start;
        while j < path_src.len()
            invariant
                start == path_dir_src@.len(),
                start <= j <= path_src@.len(),
                r@.len() == path_dir_dst@.len() + (j - start),
                forall|k: int| 0 <= k < path_dir_dst@.len() ==> (#[trigger] r@[k])@ == path_dir_dst@[k]@,
                forall|k: int|
                    path_dir_dst@.len() <= k < r@.len() ==> (#[trigger] r@[k])@ == path_src@[k - path_dir_dst@.len() + start]@,
            decreases path_src@.len() - j,
        {
            r.push(path_src[j].clone());
            j = j + 1;
        }
        assert(comps(r@) =~= comps(path_dir_dst@) + comps(path_src@).subrange(start as int, path_src@.len() as int));
        r
    } else {
        r.push(path_item_name.clone());
        assert(comps(r@) =~= comps(path_dir_dst@).push(path_item_name@));
        r
    }
}

/// A destination item path always lies under the destination root.
pub proof fn lemma_destination_under_root(
    path_src: Seq<Seq<char>>,
    name: Seq<char>,
    path_dir_src: Seq<Seq<char>>,
    path_dir_dst: Seq<Seq<char>>,
    if_keep_tree: bool,
)
    ensures
        starts_with(
            destination_of(path_src, name, path_dir_src, path_dir_dst, if_keep_tree),
            path_dir_dst,
        ),
{
    let d = destination_of(path_src, name, path_dir_src, path_dir_dst, if_keep_tree);
    assert(d.subrange(0, path_dir_dst.len() as int) =~= path_dir_dst);
}

/// Whether an entry at `depth_value` (the root's own entries are at depth 0)
/// is within the configured depth limit.
pub open spec fn depth_within(
    depth_value: nat,
    depth_limit: Option<usize>,
    rule_depth_limit: EnumCopyDepthLimitMode,
) -> bool {
    match depth_limit {
        None => true,
        Some(limit) => match rule_depth_limit {
            EnumCopyDepthLimitMode::AtMost => depth_value <= limit,
            EnumCopyDepthLimitMode::Exact => depth_value == limit,
        },
    }
}

/// Whether an entry at `depth_value` is within the configured depth limit:
/// "at-most" keeps depths up to the limit, "exact" only the limit itself.
pub fn is_depth_within_limit(
    depth_value: usize,
    depth_limit: Option<usize>,
    rule_depth_limit: EnumCopyDepthLimitMode,
) -> (r: bool)
    ensures
        r == depth_within(depth_value as nat, depth_limit, rule_depth_limit),
{
    match depth_limit {
        None => true,
        Some(limit) => match rule_depth_limit {
            EnumCopyDepthLimitMode::AtMost => depth_value <= limit,
            EnumCopyDepthLimitMode::Exact => depth_value == limit,
        },
    }
}

/// Depth rule, stated over both modes: with a limit, "at-most" admits exactly
/// the depths up to the limit and "exact" exactly the limit; without one,
/// every depth is admitted.
pub proof fn lemma_depth_rule(depth_value: nat, depth_limit: Option<usize>)
    ensures
        depth_limit is None ==> depth_within(depth_value, depth_limit, EnumCopyDepthLimitMode::AtMost),
        depth_limit is Some ==> (depth_within(depth_value, depth_limit, EnumCopyDepthLimitMode::AtMost)
            <==> depth_value <= depth_limit->0),
        depth_limit is Some ==> (depth_within(depth_value, depth_limit, EnumCopyDepthLimitMode::Exact)
            <==> depth_value == depth_limit->0),
        depth_within(depth_value, depth_limit, EnumCopyDepthLimitMode::Exact) ==> depth_within(
            depth_value,
            depth_limit,
            EnumCopyDepthLimitMode::AtMost,
        ),
{
}

/// The number of copy workers: the requested number clamped to
/// `[1, n_cpu]`, or `min(n_cpu, 8)` (at least 1) when none is requested.
pub open spec fn worker_limit(num_workers_max: Option<usize>, n_cpu: usize) -> int {
    let cpu = if n_cpu == 0 {
        1
    } else {
        n_cpu as int
    };
    match num_workers_max {
        Some(n) => if n < 1 {
            1
        } else if n > cpu {
            cpu
        } else {
            n as int
        },
        None => if cpu > 8 {
            8
        } else {
            cpu
        },
    }
}

/// The effective worker count for `num_workers_max` on a machine with
/// `n_cpu` available threads (0 when it could not be determined, counted as 1).
pub fn calculate_worker_limit(num_workers_max: Option<usize>, n_cpu: usize) -> (r: usize)
    ensures
        r == worker_limit(num_workers_max, n_cpu),
        1 <= r,
{
    let cpu: usize = if n_cpu == 0 {
        1
    } else {
        n_cpu
    };
    match num_workers_max {
        Some(n) => if n < 1 {
            1
        } else if n > cpu {
            cpu
        } else {
            n
        },
        None => if cpu > 8 {
            8
        } else {
            cpu
        },
    }
}

/// What a look at one existing-or-not path (without following a final
/// symlink) found.
pub enum ProbeState {
    /// Nothing exists there.
    Missing,
    /// A symbolic link exists there.
    Symlink,
    /// Something other than a symbolic link exists there.
    Present,
    /// The look failed for another reason, with its message.
    Failed(String),
}

/// Why a destination path was rejected.
pub enum UnsafeDestination {
    /// The path does not lie under the destination root once resolved: the
    /// root does not lead it, or a component below the root is `.` or `..`.
    EscapesRoot,
    /// The path's parent does not lie under the destination root.
    ParentEscapesRoot,
    /// The component at this index past the root is a symbolic link.
    SymlinkComponent(usize),
    /// The component at this index past the root could not be inspected.
    ComponentInspectFailed(usize, String),
    /// The path itself is an existing symbolic link.
    ExistingSymlink,
    /// The path itself could not be inspected.
    InspectFailed(String),
}

/// Whether a probe neither found a symlink nor failed.
pub open spec fn probe_clear(p: ProbeState) -> bool {
    p is Missing || p is Present
}

/// Whether a component steps in place or back up (`.` or `..`), so that a
/// path holding it does not stay where its leading components put it.
pub open spec fn relative_step(c: Seq<char>) -> bool {
    c == "."@ || c == ".."@
}

/// Whether `item` lies under `root` once resolved: `root` leads it, and no
/// component after the root is `.` or `..`.
pub open spec fn contained(item: Seq<Seq<char>>, root: Seq<Seq<char>>) -> bool {
    &&& starts_with(item, root)
    &&& forall|k: int| root.len() <= k < item.len() ==> !relative_step(#[trigger] item[k])
}

/// The destination-safety rule: the item and its parent lie under the root
/// (with no `.` or `..` below it),
/// and no component from the root down to the item (the item included) is a
/// symbolic link or uninspectable. `probes[k]` is what was found at the root
/// joined with the item's first `k + 1` components past the root.
pub open spec fn destination_safe(
    item: Seq<Seq<char>>,
    root: Seq<Seq<char>>,
    probes: Seq<ProbeState>,
) -> bool {
    &&& contained(item, root)
    &&& item.len() > root.len()
    &&& forall|k: int| 0 <= k < probes.len() ==> probe_clear(#[trigger] probes[k])
}

/// Validates a destination item against the destination root, given what
/// was found at each path from the root's first component to the item.
pub fn validate_destination_path_safety(
    path_dst_item: &Vec<String>,
    path_dir_dst_root: &Vec<String>,
    probes: &Vec<ProbeState>,
) -> (r: Result<(), UnsafeDestination>)
    requires
        starts_with(comps(path_dst_item@), comps(path_dir_dst_root@)) ==> probes@.len()
            == path_dst_item@.len() - path_dir_dst_root@.len(),
    ensures
        r is Ok <==> destination_safe(comps(path_dst_item@), comps(path_dir_dst_root@), probes@),
        r matches Err(UnsafeDestination::EscapesRoot) <==> !contained(
            comps(path_dst_item@),
            comps(path_dir_dst_root@),
        ),
        r matches Err(UnsafeDestination::ParentEscapesRoot) <==> (contained(
            comps(path_dst_item@),
            comps(path_dir_dst_root@),
        ) && path_dst_item@.len() == path_dir_dst_root@.len()),
        r matches Err(UnsafeDestination::SymlinkComponent(k)) ==> k + 1 < probes@.len()
            && probes@[k as int] is Symlink,
        r matches Err(UnsafeDestination::ComponentInspectFailed(k, m)) ==> k + 1 < probes@.len()
            && probes@[k as int] == ProbeState::Failed(m),
        r matches Err(UnsafeDestination::ExistingSymlink) ==> probes@.last() is Symlink,
        r matches Err(UnsafeDestination::InspectFailed(m)) ==> probes@.last() == ProbeState::Failed(m),
{
    if !is_relative_to_base(path_dst_item, path_dir_dst_root) {
        return Err(UnsafeDestination::EscapesRoot);
    }
    let mut j: usize = path_dir_dst_root.len();
    while j < path_dst_item.len()
        invariant
            path_dir_dst_root@.len() <= j <= path_dst_item@.len(),
            forall|k: int| path_dir_dst_root@.len() <= k < j ==> !relative_step(#[trigger] comps(path_dst_item@)[k]),
        decreases path_dst_item@.len() - j,
    {
        let c = path_dst_item[j].as_str();
        if crate::text::str_eq(c, ".") || crate::text::str_eq(c, "..") {
            assert(relative_step(comps(path_dst_item@)[j as int]));
            return Err(UnsafeDestination::EscapesRoot);
        }
        j = j + 1;
    }
    assert(contained(comps(path_dst_item@), comps(path_dir_dst_root@)));
    if path_dst_item.len() == path_dir_dst_root.len() {
        return Err(UnsafeDestination::ParentEscapesRoot);
    }
    let n = probes.len();
    let mut k: usize = 0;
    while k + 1 < n
        invariant
            n == probes@.len(),
            n >= 1,
            k < n,
            contained(comps(path_dst_item@), comps(path_dir_dst_root@)),
            path_dst_item@.len() != path_dir_dst_root@.len(),
            forall|j: int| 0 <= j < k ==> probe_clear(#[trigger] probes@[j]),
        decreases n - k,
    {
        match &probes[k] {
            ProbeState::Symlink => {
                return Err(UnsafeDestination::SymlinkComponent(k));
            },
            ProbeState::Failed(m) => {
                return Err(UnsafeDestination::ComponentInspectFailed(k, m.clone()));
            },
            _ => {},
        }
        k = k + 1;
    }
    match &probes[n - 1] {
        ProbeState::Symlink => Err(UnsafeDestination::ExistingSymlink),
        ProbeState::Failed(m) => Err(UnsafeDestination::InspectFailed(m.clone())),
        _ => Ok(()),
    }
}

/// The first `n` components of a path.
fn path_prefix(p: &Vec<String>, n: usize) -> (r: Vec<String>)
    requires
        n <= p@.len(),
    ensures
        comps(r@) == comps(p@).subrange(0, n as int),
{
    let mut r: Vec<String> = Vec::new();
    let mut i: usize = 0;
    while i < n
        invariant
            n <= p@.len(),
            i <= n,
            r@.len() == i,
            forall|k: int| 0 <= k < i ==> (#[trigger] r@[k])@ == p@[k]@,
        decreases n - i,
    {
        r.push(p[i].clone());
        i = i + 1;
    }
    assert(comps(r@) =~= comps(p@).subrange(0, n as int));
    r
}

/// The text recorded for a rejected destination `item` under `root`.
pub open spec fn unsafe_message(
    e: UnsafeDestination,
    item: Seq<Seq<char>>,
    root: Seq<Seq<char>>,
) -> Seq<char> {
    match e {
        UnsafeDestination::EscapesRoot => "Unsafe destination path escapes destination root: "@
            + display(item) + " (root="@ + display(root) + ")"@,
        UnsafeDestination::ParentEscapesRoot => "Unsafe destination parent escapes destination root: "@
            + display(item) + " (root="@ + display(root) + ")"@,
        UnsafeDestination::SymlinkComponent(k) => "Unsafe destination path traverses symlink component: "@
            + display(item.subrange(0, root.len() + k + 1)),
        UnsafeDestination::ComponentInspectFailed(k, m) => "Failed to inspect destination path component "@
            + display(item.subrange(0, root.len() + k + 1)) + " ("@ + m@ + ")"@,
        UnsafeDestination::ExistingSymlink => "Unsafe destination path is an existing symlink: "@
            + display(item),
        UnsafeDestination::InspectFailed(m) => "Failed to inspect destination path "@ + display(item)
            + " ("@ + m@ + ")"@,
    }
}

impl UnsafeDestination {
    /// A component index that the rejection names lies between the root and the item.
    pub open spec fn fits(&self, item_len: nat, root_len: nat) -> bool {
        match *self {
            UnsafeDestination::SymlinkComponent(k) => root_len + k + 1 <= item_len,
            UnsafeDestination::ComponentInspectFailed(k, _) => root_len + k + 1 <= item_len,
            _ => true,
        }
    }

    /// The message that describes this rejection of `item` under `root`.
    pub fn message(&self, item: &Vec<String>, root: &Vec<String>) -> (r: String)
        requires
            self.fits(item@.len(), root@.len()),
        ensures
            r@ == unsafe_message(*self, comps(item@), comps(root@)),
    {
        let item_len = item.len();
        let root_len = root.len();
        match self {
            UnsafeDestination::EscapesRoot => {
                let mut r = String::from_str("Unsafe destination path escapes destination root: ");
                r.append(path_display(item).as_str());
                r.append(" (root=");
                r.append(path_display(root).as_str());
                r.append(")");
                r
            },
            UnsafeDestination::ParentEscapesRoot => {
                let mut r = String::from_str("Unsafe destination parent escapes destination root: ");
                r.append(path_display(item).as_str());
                r.append(" (root=");
                r.append(path_display(root).as_str());
                r.append(")");
                r
            },
            UnsafeDestination::SymlinkComponent(k) => {
                let mut r = String::from_str("Unsafe destination path traverses symlink component: ");
                let cursor = path_prefix(item, root_len + *k + 1);
                r.append(path_display(&cursor).as_str());
                r
            },
            UnsafeDestination::ComponentInspectFailed(k, m) => {
                let mut r = String::from_str("Failed to inspect destination path component ");
                let cursor = path_prefix(item, root_len + *k + 1);
                r.append(path_display(&cursor).as_str());
                r.append(" (");
                r.append(m.as_str());
                r.append(")");
                r
            },
            UnsafeDestination::ExistingSymlink => {
                let mut r = String::from_str("Unsafe destination path is an existing symlink: ");
                r.append(path_display(item).as_str());
                r
            },
            UnsafeDestination::InspectFailed(m) => {
                let mut r = String::from_str("Failed to inspect destination path ");
                r.append(path_display(item).as_str());
                r.append(" (");
                r.append(m.as_str());
                r.append(")");
                r
            },
        }
    }
}

/// Validates a destination and renders the rejection as its message.
pub fn check_destination(
    path_dst_item: &Vec<String>,
    path_dir_dst_root: &Vec<String>,
    probes: &Vec<ProbeState>,
) -> (r: Result<(), String>)
    requires
        starts_with(comps(path_dst_item@), comps(path_dir_dst_root@)) ==> probes@.len()
            == path_dst_item@.len() - path_dir_dst_root@.len(),
    ensures
        r is Ok <==> destination_safe(comps(path_dst_item@), comps(path_dir_dst_root@), probes@),
        r is Err ==> exists|e: UnsafeDestination|
            r->Err_0@ == unsafe_message(e, comps(path_dst_item@), comps(path_dir_dst_root@)),
{
    match validate_destination_path_safety(path_dst_item, path_dir_dst_root, probes) {
        Ok(()) => Ok(()),
        Err(e) => {
            let m = e.message(path_dst_item, path_dir_dst_root);
            Err(m)
        },
    }
}

} // verus!
