//! Planning helpers of the spreadsheet writer: row chunking, index ranges,
//! sheet naming, and the merge plans of multi-row headers.
use vstd::prelude::*;

use crate::text::{decimal, u64_to_decimal};

verus! {

/// Longest sheet name a workbook accepts, in characters.
pub const N_LEN_EXCEL_SHEET_NAME_MAX: usize = 31;

/// Most rows a worksheet holds.
pub const N_NROWS_EXCEL_MAX: usize = 1048576;

/// Most columns a worksheet holds.
pub const N_NCOLS_EXCEL_MAX: usize = 16384;

/// Border styles of one cell: top, bottom, left, right.
#[derive(Debug, Clone, Copy, PartialEq, Eq, Structural)]
pub struct SpecCellBorder {
    /// Top border style.
    pub top: i64,
    /// Bottom border style.
    pub bottom: i64,
    /// Left border style.
    pub left: i64,
    /// Right border style.
    pub right: i64,
}

/// One sheet of a workbook after splitting a table at the sheet limits.
#[derive(Debug, Clone)]
pub struct SpecSheetSlice {
    /// Unique sheet name in the workbook.
    pub sheet_name: String,
    /// Inclusive source row start.
    pub row_start_inclusive: usize,
    /// Exclusive source row end.
    pub row_end_exclusive: usize,
    /// Inclusive source column start.
    pub col_start_inclusive: usize,
    /// Exclusive source column end.
    pub col_end_exclusive: usize,
}

/// One planned horizontal merge of header cells.
#[derive(Debug, Clone)]
pub struct SpecSheetHorizontalMerge {
    /// Row of the merge.
    pub row_idx_start: usize,
    /// Start column (inclusive).
    pub col_idx_start: usize,
    /// End column (inclusive).
    pub col_idx_end: usize,
    /// Merged display text.
    pub text: String,
}

/// Report of one write call.
#[derive(Debug, Clone, Default)]
pub struct SpecXlsxReport {
    /// Sheets produced by the write call.
    pub sheets: Vec<SpecSheetSlice>,
    /// Non-fatal warnings.
    pub warnings: Vec<String>,
}

impl SpecXlsxReport {
    /// Adds a warning message.
    pub fn warn(&mut self, msg: String)
        ensures
            final(self).warnings@ == old(self).warnings@.push(msg),
            final(self).sheets@ == old(self).sheets@,
    {
        self.warnings.push(msg);
    }
}

/// How rows are chunked when a table is written.
#[derive(Debug, Clone, Copy, PartialEq, Eq, Structural)]
pub struct SpecXlsxRowChunkPolicy {
    /// Width threshold of a large table.
    pub width_large: usize,
    /// Width threshold of a medium table.
    pub width_medium: usize,
    /// Chunk size when the width reaches `width_large`.
    pub size_large: usize,
    /// Chunk size when the width reaches `width_medium`.
    pub size_medium: usize,
    /// Chunk size otherwise.
    pub size_default: usize,
    /// Exact chunk size, overriding the others, when set.
    pub fixed_size: Option<usize>,
}

impl Default for SpecXlsxRowChunkPolicy {
    fn default() -> (r: Self)
        ensures
            r.width_large == 8000,
            r.width_medium == 2000,
            r.size_large == 1000,
            r.size_medium == 2000,
            r.size_default == 10000,
            r.fixed_size is None,
    {
        SpecXlsxRowChunkPolicy {
            width_large: 8000,
            width_medium: 2000,
            size_large: 1000,
            size_medium: 2000,
            size_default: 10000,
            fixed_size: None,
        }
    }
}

/// The row chunk size for a table `width_df` columns wide.
pub open spec fn row_chunk_size(width_df: usize, policy: SpecXlsxRowChunkPolicy) -> usize {
    match policy.fixed_size {
        Some(n) => n,
        None => if width_df >= policy.width_large {
            policy.size_large
        } else if width_df >= policy.width_medium {
            policy.size_medium
        } else {
            policy.size_default
        },
    }
}

/// Derives the row chunk size from the table width: the fixed size when
/// set, else the size of the widest threshold the width reaches.
pub fn calculate_row_chunk_size(width_df: usize, policy: &SpecXlsxRowChunkPolicy) -> (r: usize)
    ensures
        r == row_chunk_size(width_df, *policy),
{
    if let Some(n_fixed_size) = policy.fixed_size {
        return n_fixed_size;
    }
    if width_df >= policy.width_large {
        return policy.size_large;
    }
    if width_df >= policy.width_medium {
        return policy.size_medium;
    }
    policy.size_default
}

/// Chunks `(row_start, row_len)` that tile `0..n_rows_total` in order, each
/// `size` rows long but the last, which holds what is left.
pub open spec fn tiles_rows(chunks: Seq<(usize, usize)>, n_rows_total: nat, size: nat) -> bool {
    &&& forall|k: int| 0 <= k < chunks.len() ==> {
        let c = #[trigger] chunks[k];
        &&& c.1 > 0
        &&& c.1 == if size <= n_rows_total - c.0 {
            size
        } else {
            (n_rows_total - c.0) as nat
        }
        &&& c.0 + c.1 <= n_rows_total
    }
    &&& chunks.len() > 0 ==> chunks[0].0 == 0
    &&& forall|k: int| 0 <= k < chunks.len() - 1 ==> #[trigger] chunks[k + 1].0 == chunks[k].0 + chunks[k].1
    &&& (if chunks.len() == 0 {
        n_rows_total == 0
    } else {
        chunks.last().0 + chunks.last().1 == n_rows_total
    })
}

/// Generates `(row_start, row_len)` chunks covering `n_rows_total` rows.
pub fn generate_row_chunks(n_rows_total: usize, size_rows_chunk: usize) -> (r: Vec<(usize, usize)>)
    requires
        size_rows_chunk > 0 || n_rows_total == 0,
    ensures
        tiles_rows(r@, n_rows_total as nat, size_rows_chunk as nat),
{
    let mut l_chunks: Vec<(usize, usize)> = Vec::new();
    let mut n_row_cursor: usize = 0;
    while n_row_cursor < n_rows_total
        invariant
            size_rows_chunk > 0 || n_rows_total == 0,
            n_row_cursor <= n_rows_total,
            forall|k: int| 0 <= k < l_chunks@.len() ==> {
                let c = #[trigger] l_chunks@[k];
                &&& c.1 > 0
                &&& c.1 == if size_rows_chunk <= n_rows_total - c.0 {
                    size_rows_chunk as nat
                } else {
                    (n_rows_total - c.0) as nat
                }
                &&& c.0 + c.1 <= n_rows_total
            },
            l_chunks@.len() > 0 ==> l_chunks@[0].0 == 0,
            forall|k: int| 0 <= k < l_chunks@.len() - 1 ==> #[trigger] l_chunks@[k + 1].0 == l_chunks@[k].0 + l_chunks@[k].1,
            if l_chunks@.len() == 0 {
                n_row_cursor == 0
            } else {
                l_chunks@.last().0 + l_chunks@.last().1 == n_row_cursor
            },
        decreases n_rows_total - n_row_cursor,
    {
        let n_rows_per_chunk = if size_rows_chunk <= n_rows_total - n_row_cursor {
            size_rows_chunk
        } else {
            n_rows_total - n_row_cursor
        };
        let ghost before = l_chunks@;
        l_chunks.push((n_row_cursor, n_rows_per_chunk));
        assert forall|k: int| 0 <= k < l_chunks@.len() - 1 implies #[trigger] l_chunks@[k + 1].0 == l_chunks@[k].0 + l_chunks@[k].1 by {
            if k + 1 < before.len() {
                assert(l_chunks@[k + 1] == before[k + 1]);
            }
        }
        n_row_cursor = n_row_cursor + n_rows_per_chunk;
    }
    l_chunks
}

/// The maximal runs of consecutive integers in `s`, as inclusive
/// `(start, end)` pairs, in order.
pub open spec fn ranges_of(s: Seq<usize>) -> Seq<(usize, usize)>
    decreases s.len(),
{
    if s.len() == 0 {
        seq![]
    } else {
        let r = ranges_of(s.drop_last());
        let x = s.last();
        if r.len() > 0 && x == r.last().1 + 1 {
            r.update(r.len() - 1, (r.last().0, x))
        } else {
            r.push((x, x))
        }
    }
}

/// Converts sorted indices to contiguous inclusive ranges.
pub fn derive_contiguous_ranges(sorted_indices: &Vec<usize>) -> (r: Vec<(usize, usize)>)
    ensures
        r@ == ranges_of(sorted_indices@),
{
    let mut out: Vec<(usize, usize)> = Vec::new();
    let mut i: usize = 0;
    let ghost s = sorted_indices@;
    assert(s.subrange(0, 0) =~= Seq::<usize>::empty());
    while i < sorted_indices.len()
        invariant
            s == sorted_indices@,
            i <= s.len(),
            out@ == ranges_of(s.subrange(0, i as int)),
        decreases s.len() - i,
    {
        let idx = sorted_indices[i];
        assert(s.subrange(0, i + 1).drop_last() =~= s.subrange(0, i as int));
        let n = out.len();
        if n > 0 && out[n - 1].1 < usize::MAX && idx == out[n - 1].1 + 1 {
            let start = out[n - 1].0;
            out.set(n - 1, (start, idx));
        } else {
            out.push((idx, idx));
        }
        i = i + 1;
    }
    assert(s.subrange(0, s.len() as int) =~= s);
    out
}

/// Whether `c` is white space as `char::is_whitespace` defines it (the
/// Unicode `White_Space` property).
pub open spec fn is_white_space(c: char) -> bool {
    let u = c as u32;
    (0x9 <= u <= 0xD) || u == 0x20 || u == 0x85 || u == 0xA0 || u == 0x1680 || (0x2000 <= u <= 0x200A)
        || u == 0x2028 || u == 0x2029 || u == 0x202F || u == 0x205F || u == 0x3000
}

fn white_space(c: char) -> (r: bool)
    ensures
        r == is_white_space(c),
{
    let u = c as u32;
    (0x9 <= u && u <= 0xD) || u == 0x20 || u == 0x85 || u == 0xA0 || u == 0x1680 || (0x2000 <= u && u
        <= 0x200A) || u == 0x2028 || u == 0x2029 || u == 0x202F || u == 0x205F || u == 0x3000
}

/// `s` without leading and trailing white space, as `str::trim` gives it.
pub open spec fn trimmed(s: Seq<char>) -> Seq<char>
    decreases s.len(),
{
    if s.len() > 0 && is_white_space(s[0]) {
        trimmed(s.drop_first())
    } else if s.len() > 0 && is_white_space(s.last()) {
        trimmed(s.drop_last())
    } else {
        s
    }
}

/// `s` with every `c` replaced by `rep`.
pub open spec fn replace_char(s: Seq<char>, c: char, rep: Seq<char>) -> Seq<char>
    decreases s.len(),
{
    if s.len() == 0 {
        seq![]
    } else {
        replace_char(s.drop_last(), c, rep) + if s.last() == c {
            rep
        } else {
            seq![s.last()]
        }
    }
}

/// The characters a sheet name may not hold, in the order they are replaced.
pub open spec fn illegal_sheet_chars() -> Seq<char> {
    seq!['*', ':', '?', '/', '\\', '[', ']']
}

/// `s` after replacing, in turn, each of the first `n` illegal characters.
pub open spec fn replaced_upto(s: Seq<char>, rep: Seq<char>, n: int) -> Seq<char>
    decreases n,
{
    if n <= 0 {
        s
    } else {
        replace_char(replaced_upto(s, rep, n - 1), illegal_sheet_chars()[n - 1], rep)
    }
}

/// A valid sheet name made from `name`.
pub open spec fn sanitized_sheet_name(name: Seq<char>, replace_to: Seq<char>) -> Seq<char> {
    let t = trimmed(replaced_upto(name, replace_to, 7));
    let base = if t.len() == 0 {
        "Sheet"@
    } else {
        t
    };
    if base.len() > N_LEN_EXCEL_SHEET_NAME_MAX {
        base.subrange(0, N_LEN_EXCEL_SHEET_NAME_MAX as int)
    } else {
        base
    }
}

fn replace_one(s: &str, c: char, rep: &str) -> (r: String)
    ensures
        r@ == replace_char(s@, c, rep@),
{
    let n = s.unicode_len();
    let mut out = String::new();
    let mut i: usize = 0;
    assert(s@.subrange(0, 0) =~= Seq::<char>::empty());
    while i < n
        invariant
            n == s@.len(),
            i <= n,
            out@ == replace_char(s@.subrange(0, i as int), c, rep@),
        decreases n - i,
    {
        assert(s@.subrange(0, i + 1).drop_last() =~= s@.subrange(0, i as int));
        let ch = s.get_char(i);
        if ch == c {
            out.append(rep);
        } else {
            out.append(s.substring_char(i, i + 1));
            assert(s@.subrange(i as int, i + 1) =~= seq![ch]);
        }
        i = i + 1;
    }
    assert(s@.subrange(0, n as int) =~= s@);
    out
}

fn trim_text(s: &str) -> (r: String)
    ensures
        r@ == trimmed(s@),
{
    let n = s.unicode_len();
    let mut a: usize = 0;
    assert(s@.subrange(0, n as int) =~= s@);
    while a < n && white_space(s.get_char(a))
        invariant
            n == s@.len(),
            a <= n,
            trimmed(s@.subrange(a as int, n as int)) == trimmed(s@),
        decreases n - a,
    {
        assert(s@.subrange(a as int, n as int).drop_first() =~= s@.subrange(a + 1, n as int));
        a = a + 1;
    }
    let mut b: usize = n;
    while b > a && white_space(s.get_char(b - 1))
        invariant
            n == s@.len(),
            a <= b <= n,
            a < n ==> !is_white_space(s@[a as int]),
            trimmed(s@.subrange(a as int, b as int)) == trimmed(s@),
        decreases b - a,
    {
        assert(s@.subrange(a as int, b as int).drop_last() =~= s@.subrange(a as int, b - 1));
        b = b - 1;
    }
    let t = s.substring_char(a, b);
    assert(trimmed(s@.subrange(a as int, b as int)) == s@.subrange(a as int, b as int));
    String::from_str(t)
}

/// Makes a valid sheet name: each illegal character (`* : ? / \\ [ ]`,
/// in that order) replaced by `replace_to`, surrounding white space trimmed,
/// `Sheet` for an empty result, and at most the name-length limit kept.
pub fn sanitize_sheet_name(name: &str, replace_to: &str) -> (r: String)
    ensures
        r@ == sanitized_sheet_name(name@, replace_to@),
{
    let illegal: [char; 7] = ['*', ':', '?', '/', '\\', '[', ']'];
    let mut c_name = String::from_str(name);
    let mut k: usize = 0;
    while k < 7
        invariant
            k <= 7,
            illegal@ == illegal_sheet_chars(),
            c_name@ == replaced_upto(name@, replace_to@, k as int),
        decreases 7 - k,
    {
        c_name = replace_one(c_name.as_str(), illegal[k], replace_to);
        k = k + 1;
    }
    let mut t = trim_text(c_name.as_str());
    if t.as_str().unicode_len() == 0 {
        t = String::from_str("Sheet");
        proof {
            reveal_strlit("Sheet");
        }
    }
    let len = t.as_str().unicode_len();
    if len > N_LEN_EXCEL_SHEET_NAME_MAX {
        String::from_str(t.as_str().substring_char(0, N_LEN_EXCEL_SHEET_NAME_MAX))
    } else {
        t
    }
}

/// A suffixed sheet name: `base_<idx>`, with the base cut so that the whole
/// fits the sheet-name limit (keeping at least one base character).
pub open spec fn sheet_identifier(base_name: Seq<char>, part_idx_1based: nat) -> Seq<char> {
    let suffix = "_"@ + decimal(part_idx_1based);
    let room: int = if N_LEN_EXCEL_SHEET_NAME_MAX >= suffix.len() {
        N_LEN_EXCEL_SHEET_NAME_MAX - suffix.len()
    } else {
        0
    };
    let keep: int = if room < 1 {
        1
    } else {
        room
    };
    let cut: int = if keep < base_name.len() {
        keep
    } else {
        base_name.len() as int
    };
    base_name.subrange(0, cut) + suffix
}

/// Creates a suffixed sheet name (`base_1`, `base_2`, ...) within the
/// sheet-name length limit.
pub fn create_sheet_identifier(base_name: &str, part_idx_1based: usize) -> (r: String)
    ensures
        r@ == sheet_identifier(base_name@, part_idx_1based as nat),
{
    let digits = u64_to_decimal(part_idx_1based as u64);
    let mut suffix = String::from_str("_");
    suffix.append(digits.as_str());
    let suffix_len = suffix.as_str().unicode_len();
    let room: usize = if N_LEN_EXCEL_SHEET_NAME_MAX >= suffix_len {
        N_LEN_EXCEL_SHEET_NAME_MAX - suffix_len
    } else {
        0
    };
    let keep: usize = if room < 1 {
        1
    } else {
        room
    };
    let base_len = base_name.unicode_len();
    let cut: usize = if keep < base_len {
        keep
    } else {
        base_len
    };
    let mut r = String::from_str(base_name.substring_char(0, cut));
    r.append(suffix.as_str());
    proof {
        reveal_strlit("_");
    }
    r
}

/// Consecutive `[start, end)` ranges of at most `step` that cover
/// `from..total`.
pub open spec fn tiles_from(from: nat, total: nat, step: nat) -> Seq<(nat, nat)>
    decreases total - from,
{
    if step == 0 || from >= total {
        seq![]
    } else {
        let end: nat = if from + step < total {
            from + step
        } else {
            total
        };
        seq![(from, end)] + tiles_from(end, total, step)
    }
}

/// The row ranges of a table `height` rows tall, sheets holding `step` data
/// rows; a table without rows still gets one empty range.
pub open spec fn row_tiles(height: nat, step: nat) -> Seq<(nat, nat)> {
    if tiles_from(0, height, step).len() == 0 {
        seq![(0nat, 0nat)]
    } else {
        tiles_from(0, height, step)
    }
}

/// Every (rows, columns) pair, columns first: for each column range, each
/// row range; as (row start, row end, column start, column end).
pub open spec fn parts_of(cols: Seq<(nat, nat)>, rows: Seq<(nat, nat)>) -> Seq<(nat, nat, nat, nat)>
    decreases cols.len(),
{
    if cols.len() == 0 {
        seq![]
    } else {
        parts_of(cols.drop_last(), rows) + rows.map_values(
            |r: (nat, nat)| (r.0, r.1, cols.last().0, cols.last().1),
        )
    }
}

/// The ranges of a planned sheet.
pub open spec fn slice_ranges(s: SpecSheetSlice) -> (nat, nat, nat, nat) {
    (
        s.row_start_inclusive as nat,
        s.row_end_exclusive as nat,
        s.col_start_inclusive as nat,
        s.col_end_exclusive as nat,
    )
}

/// The text of the warning about a table split into `n` sheets.
pub open spec fn split_warning(n: nat) -> Seq<char> {
    "Excel limit overflow: split into "@ + decimal(n) + " sheets (columns-first, then rows)."@
}

fn tile_ranges(total: usize, step: usize) -> (r: Vec<(usize, usize)>)
    requires
        step > 0,
    ensures
        r@.map_values(|t: (usize, usize)| (t.0 as nat, t.1 as nat)) == tiles_from(0, total as nat, step as nat),
{
    let mut out: Vec<(usize, usize)> = Vec::new();
    let mut start: usize = 0;
    while start < total
        invariant
            step > 0,
            start <= total,
            out@.map_values(|t: (usize, usize)| (t.0 as nat, t.1 as nat)) + tiles_from(start as nat, total as nat, step as nat)
                == tiles_from(0, total as nat, step as nat),
        decreases total - start,
    {
        let end: usize = if step < total - start {
            start + step
        } else {
            total
        };
        let ghost before = out@.map_values(|t: (usize, usize)| (t.0 as nat, t.1 as nat));
        out.push((start, end));
        assert(out@.map_values(|t: (usize, usize)| (t.0 as nat, t.1 as nat)) =~= before + seq![(start as nat, end as nat)]);
        assert(before + seq![(start as nat, end as nat)] + tiles_from(end as nat, total as nat, step as nat)
            =~= before + tiles_from(start as nat, total as nat, step as nat));
        start = end;
    }
    assert(out@.map_values(|t: (usize, usize)| (t.0 as nat, t.1 as nat)) + seq![] =~= out@.map_values(|t: (usize, usize)| (t.0 as nat, t.1 as nat)));
    out
}

/// Splits a table into sheets within the worksheet limits: column ranges
/// first, then row ranges within each; one sheet keeps `sheet_name`, several
/// are named `sheet_name_1`, `sheet_name_2`, ... and a warning says how many.
/// The header takes `height_header` rows of every sheet.
pub fn plan_sheet_slices(
    height_df: usize,
    width_df: usize,
    height_header: usize,
    sheet_name: &str,
    report: &mut SpecXlsxReport,
) -> (r: Result<Vec<SpecSheetSlice>, String>)
    requires
        1 <= height_header < N_NROWS_EXCEL_MAX ==> parts_of(
            tiles_from(0, width_df as nat, N_NCOLS_EXCEL_MAX as nat),
            row_tiles(height_df as nat, (N_NROWS_EXCEL_MAX - height_header) as nat),
        ).len() < usize::MAX,
    ensures
        r is Ok <==> 1 <= height_header < N_NROWS_EXCEL_MAX,
        height_header == 0 ==> r == Err::<Vec<SpecSheetSlice>, String>(r->Err_0) && r->Err_0@
            == "height_header must be >= 1."@,
        height_header >= N_NROWS_EXCEL_MAX ==> r is Err && r->Err_0@ == "Header too tall: height_header="@
            + decimal(height_header as nat) + " exceeds Excel limit."@,
        r is Err ==> *final(report) == *old(report),
        r is Ok ==> {
            let parts = r->Ok_0@;
            &&& parts.map_values(|s: SpecSheetSlice| slice_ranges(s)) == parts_of(
                tiles_from(0, width_df as nat, N_NCOLS_EXCEL_MAX as nat),
                row_tiles(height_df as nat, (N_NROWS_EXCEL_MAX - height_header) as nat),
            )
            &&& forall|k: int|
                0 <= k < parts.len() ==> (#[trigger] parts[k]).sheet_name@ == if parts.len() == 1 {
                    sheet_name@
                } else {
                    sheet_identifier(sheet_name@, (k + 1) as nat)
                }
            &&& final(report).sheets@ == old(report).sheets@
            &&& final(report).warnings@ == if parts.len() > 1 {
                old(report).warnings@.push(final(report).warnings@.last())
            } else {
                old(report).warnings@
            }
            &&& parts.len() > 1 ==> final(report).warnings@.last()@ == split_warning(parts.len())
        },
{
    if height_header == 0 {
        return Err(String::from_str("height_header must be >= 1."));
    }
    if height_header >= N_NROWS_EXCEL_MAX {
        let mut msg = String::from_str("Header too tall: height_header=");
        msg.append(u64_to_decimal(height_header as u64).as_str());
        msg.append(" exceeds Excel limit.");
        return Err(msg);
    }
    let n_rows_data_max = N_NROWS_EXCEL_MAX - height_header;
    let col_slices = tile_ranges(width_df, N_NCOLS_EXCEL_MAX);
    let mut row_slices = tile_ranges(height_df, n_rows_data_max);
    if row_slices.len() == 0 {
        row_slices.push((0, 0));
    }
    let ghost cols = col_slices@.map_values(|t: (usize, usize)| (t.0 as nat, t.1 as nat));
    let ghost rows = row_slices@.map_values(|t: (usize, usize)| (t.0 as nat, t.1 as nat));
    assert(rows =~= row_tiles(height_df as nat, n_rows_data_max as nat));
    let single = col_slices.len() == 1 && row_slices.len() == 1;
    let mut parts: Vec<SpecSheetSlice> = Vec::new();
    let mut ci: usize = 0;
    assert(cols.subrange(0, 0) =~= Seq::<(nat, nat)>::empty());
    while ci < col_slices.len()
        invariant
            cols == col_slices@.map_values(|t: (usize, usize)| (t.0 as nat, t.1 as nat)),
            rows == row_slices@.map_values(|t: (usize, usize)| (t.0 as nat, t.1 as nat)),
            row_slices@.len() >= 1,
            single == (col_slices@.len() == 1 && row_slices@.len() == 1),
            ci <= col_slices@.len(),
            parts@.map_values(|s: SpecSheetSlice| slice_ranges(s)) == parts_of(cols.subrange(0, ci as int), rows),
            parts_of(cols, rows).len() < usize::MAX,
            forall|k: int|
                0 <= k < parts@.len() ==> (#[trigger] parts@[k]).sheet_name@ == if single {
                    sheet_name@
                } else {
                    sheet_identifier(sheet_name@, (k + 1) as nat)
                },
        decreases col_slices@.len() - ci,
    {
        let (col_start, col_end) = col_slices[ci];
        let ghost base = parts@.map_values(|s: SpecSheetSlice| slice_ranges(s));
        let mut ri: usize = 0;
        while ri < row_slices.len()
            invariant
                cols == col_slices@.map_values(|t: (usize, usize)| (t.0 as nat, t.1 as nat)),
                rows == row_slices@.map_values(|t: (usize, usize)| (t.0 as nat, t.1 as nat)),
                single == (col_slices@.len() == 1 && row_slices@.len() == 1),
                ci < col_slices@.len(),
                parts_of(cols, rows).len() < usize::MAX,
                base == parts_of(cols.subrange(0, ci as int), rows),
                (col_start, col_end) == col_slices@[ci as int],
                ri <= row_slices@.len(),
                parts@.map_values(|s: SpecSheetSlice| slice_ranges(s)) == base + rows.subrange(0, ri as int).map_values(
                    |r: (nat, nat)| (r.0, r.1, col_start as nat, col_end as nat),
                ),
                forall|k: int|
                    0 <= k < parts@.len() ==> (#[trigger] parts@[k]).sheet_name@ == if single {
                        sheet_name@
                    } else {
                        sheet_identifier(sheet_name@, (k + 1) as nat)
                    },
            decreases row_slices@.len() - ri,
        {
            let (row_start, row_end) = row_slices[ri];
            proof {
                lemma_parts_len(cols.subrange(0, ci as int), rows);
                lemma_parts_len(cols, rows);
                lemma_part_index_fits(ci as nat, ri as nat, rows.len(), cols.len());
                assert(cols.subrange(0, ci as int).len() == ci);
                assert(parts@.len() == parts@.map_values(|s: SpecSheetSlice| slice_ranges(s)).len());
                assert(parts@.len() == base.len() + ri);
            }
            let n_idx_part = parts.len() + 1;
            let name = if single {
                String::from_str(sheet_name)
            } else {
                create_sheet_identifier(sheet_name, n_idx_part)
            };
            let ghost before = parts@.map_values(|s: SpecSheetSlice| slice_ranges(s));
            parts.push(
                SpecSheetSlice {
                    sheet_name: name,
                    row_start_inclusive: row_start,
                    row_end_exclusive: row_end,
                    col_start_inclusive: col_start,
                    col_end_exclusive: col_end,
                },
            );
            assert(parts@.map_values(|s: SpecSheetSlice| slice_ranges(s)) =~= before + seq![
                (row_start as nat, row_end as nat, col_start as nat, col_end as nat),
            ]);
            assert(rows.subrange(0, ri + 1).map_values(|r: (nat, nat)| (r.0, r.1, col_start as nat, col_end as nat))
                =~= rows.subrange(0, ri as int).map_values(|r: (nat, nat)| (r.0, r.1, col_start as nat, col_end as nat))
                + seq![(row_start as nat, row_end as nat, col_start as nat, col_end as nat)]);
            ri = ri + 1;
        }
        assert(cols.subrange(0, ci + 1).drop_last() =~= cols.subrange(0, ci as int));
        assert(rows.subrange(0, rows.len() as int) =~= rows);
        ci = ci + 1;
    }
    assert(cols.subrange(0, cols.len() as int) =~= cols);
    proof {
        lemma_parts_len(cols, rows);
        lemma_product_one(cols.len(), rows.len());
    }
    if parts.len() > 1 {
        let mut msg = String::from_str("Excel limit overflow: split into ");
        msg.append(u64_to_decimal(parts.len() as u64).as_str());
        msg.append(" sheets (columns-first, then rows).");
        report.warn(msg);
    }
    Ok(parts)
}

proof fn lemma_parts_len(cols: Seq<(nat, nat)>, rows: Seq<(nat, nat)>)
    ensures
        parts_of(cols, rows).len() == cols.len() * rows.len(),
    decreases cols.len(),
{
    if cols.len() > 0 {
        lemma_parts_len(cols.drop_last(), rows);
        let c = cols.len() as int;
        let r = rows.len() as int;
        assert((c - 1) * r + r == c * r) by (nonlinear_arith);
    }
}

proof fn lemma_part_index_fits(ci: nat, ri: nat, n_rows: nat, n_cols: nat)
    requires
        ci < n_cols,
        ri < n_rows,
    ensures
        ci * n_rows + ri < n_cols * n_rows,
{
    assert(ci * n_rows + ri < n_cols * n_rows) by (nonlinear_arith)
        requires
            ci < n_cols,
            ri < n_rows,
    ;
}

proof fn lemma_product_one(a: nat, b: nat)
    ensures
        (a * b == 1) <==> (a == 1 && b == 1),
        (a * b > 1) <==> (a >= 1 && b >= 1 && !(a == 1 && b == 1)),
{
    assert((a * b == 1) <==> (a == 1 && b == 1)) by (nonlinear_arith);
    assert((a * b > 1) <==> (a >= 1 && b >= 1 && !(a == 1 && b == 1))) by (nonlinear_arith);
}

/// The text of header cell (`r`, `c`).
pub open spec fn cell(grid: Seq<Vec<String>>, r: int, c: int) -> Seq<char> {
    grid[r]@[c]@
}

/// Every row has as many cells as the first.
pub open spec fn rectangular(grid: Seq<Vec<String>>) -> bool {
    forall|r: int| 0 <= r < grid.len() ==> (#[trigger] grid[r])@.len() == grid[0]@.len()
}

/// The first row from `j` on whose cell in column `c` differs from `val`
/// (or the row count).
pub open spec fn run_end(grid: Seq<Vec<String>>, c: int, val: Seq<char>, j: int) -> int
    decreases grid.len() - j,
{
    if j < 0 || j >= grid.len() || cell(grid, j, c) != val {
        j
    } else {
        run_end(grid, c, val, j + 1)
    }
}

proof fn lemma_run_end_ge(grid: Seq<Vec<String>>, c: int, val: Seq<char>, j: int)
    ensures
        run_end(grid, c, val, j) >= j,
        j >= 0 ==> run_end(grid, c, val, j) <= if j > grid.len() {
            j
        } else {
            grid.len() as int
        },
    decreases grid.len() - j,
{
    if !(j < 0 || j >= grid.len() || cell(grid, j, c) != val) {
        lemma_run_end_ge(grid, c, val, j + 1);
    }
}

/// The vertical runs of column `c` from row `start` down: each maximal
/// stretch of two or more equal non-empty cells, as
/// (column, first row, last row, text).
pub open spec fn col_runs(grid: Seq<Vec<String>>, c: int, start: int) -> Seq<(int, int, int, Seq<char>)>
    decreases grid.len() - start,
    via col_runs_decreases
{
    if start < 0 || start >= grid.len() {
        seq![]
    } else if cell(grid, start, c).len() == 0 {
        col_runs(grid, c, start + 1)
    } else {
        let v = cell(grid, start, c);
        let next = run_end(grid, c, v, start + 1);
        (if next - start > 1 {
            seq![(c, start, next - 1, v)]
        } else {
            seq![]
        }) + col_runs(grid, c, next)
    }
}

#[via_fn]
proof fn col_runs_decreases(grid: Seq<Vec<String>>, c: int, start: int) {
    if !(start < 0 || start >= grid.len()) && cell(grid, start, c).len() != 0 {
        lemma_run_end_ge(grid, c, cell(grid, start, c), start + 1);
    }
}

/// The vertical runs of the first `n_cols` columns, column by column.
pub open spec fn runs_upto(grid: Seq<Vec<String>>, n_cols: int) -> Seq<(int, int, int, Seq<char>)>
    decreases n_cols,
{
    if n_cols <= 0 {
        seq![]
    } else {
        runs_upto(grid, n_cols - 1) + col_runs(grid, n_cols - 1, 0)
    }
}

/// All vertical runs of a header grid, column by column, top to bottom.
pub open spec fn vertical_runs(grid: Seq<Vec<String>>) -> Seq<(int, int, int, Seq<char>)> {
    if grid.len() == 0 {
        seq![]
    } else {
        runs_upto(grid, grid[0]@.len() as int)
    }
}

/// The mathematical view of planned runs.
pub open spec fn run_views(s: Seq<(usize, usize, usize, String)>) -> Seq<(int, int, int, Seq<char>)> {
    s.map_values(|t: (usize, usize, usize, String)| (t.0 as int, t.1 as int, t.2 as int, t.3@))
}

/// Finds the contiguous vertical runs `(col, row_start, row_end, text)` of
/// equal non-empty cells (two rows or more) in a rectangular header grid.
pub fn _generate_vertical_runs(header_grid: &Vec<Vec<String>>) -> (r: Vec<(usize, usize, usize, String)>)
    requires
        rectangular(header_grid@),
    ensures
        run_views(r@) == vertical_runs(header_grid@),
{
    let mut out: Vec<(usize, usize, usize, String)> = Vec::new();
    if header_grid.len() == 0 {
        assert(run_views(out@) =~= Seq::empty());
        return out;
    }
    let ghost g = header_grid@;
    let n_rows = header_grid.len();
    let n_cols = header_grid[0].len();
    let mut col: usize = 0;
    assert(run_views(out@) =~= runs_upto(g, 0));
    while col < n_cols
        invariant
            g == header_grid@,
            rectangular(g),
            n_rows == g.len(),
            n_rows > 0,
            n_cols == g[0]@.len(),
            col <= n_cols,
            run_views(out@) == runs_upto(g, col as int),
        decreases n_cols - col,
    {
        let mut start: usize = 0;
        assert(run_views(out@) + col_runs(g, col as int, 0) =~= runs_upto(g, col + 1));
        while start < n_rows
            invariant
                g == header_grid@,
                rectangular(g),
                n_rows == g.len(),
                n_cols == g[0]@.len(),
                col < n_cols,
                start <= n_rows,
                run_views(out@) + col_runs(g, col as int, start as int) == runs_upto(g, col + 1),
            decreases n_rows - start,
        {
            assert(header_grid@[start as int]@.len() == n_cols);
            let val = &header_grid[start][col];
            if val.as_str().unicode_len() == 0 {
                start = start + 1;
            } else {
                let mut next: usize = start + 1;
                while next < n_rows && header_grid[next][col] == *val
                    invariant
                        g == header_grid@,
                        rectangular(g),
                        n_rows == g.len(),
                        n_cols == g[0]@.len(),
                        col < n_cols,
                        start < next <= n_rows,
                        val@ == cell(g, start as int, col as int),
                        run_end(g, col as int, val@, start + 1) == run_end(g, col as int, val@, next as int),
                    decreases n_rows - next,
                {
                    assert(header_grid@[next as int]@.len() == n_cols);
                    next = next + 1;
                }
                proof {
                    if next < n_rows {
                        assert(cell(g, next as int, col as int) != val@);
                    }
                }
                let ghost before = run_views(out@);
                if next - start > 1 {
                    out.push((col, start, next - 1, val.clone()));
                    assert(run_views(out@) =~= before + seq![(col as int, start as int, next - 1, val@)]);
                } else {
                    assert(before + seq![] =~= before);
                }
                start = next;
            }
        }
        col = col + 1;
    }
    out
}

/// The border of row `r` within a vertical run from `s` to `e`: closed on
/// top at its first row, at the bottom at its last, always on both sides.
pub open spec fn run_border(r: int, s: int, e: int) -> SpecCellBorder {
    SpecCellBorder {
        top: if r == s {
            1
        } else {
            0
        },
        bottom: if r == e {
            1
        } else {
            0
        },
        left: 1,
        right: 1,
    }
}

/// `m` with the cells of rows `s..upto` of column `c` bordered as a run
/// from `s` to `e`.
pub open spec fn run_cells(
    m: Map<(usize, usize), SpecCellBorder>,
    c: int,
    s: int,
    e: int,
    upto: int,
) -> Map<(usize, usize), SpecCellBorder>
    decreases upto - s,
{
    if upto <= s {
        m
    } else {
        run_cells(m, c, s, e, upto - 1).insert(((upto - 1) as usize, c as usize), run_border(upto - 1, s, e))
    }
}

/// The border plan of a sequence of vertical runs, later runs written last.
pub open spec fn borders_of(runs: Seq<(int, int, int, Seq<char>)>) -> Map<(usize, usize), SpecCellBorder>
    decreases runs.len(),
{
    if runs.len() == 0 {
        Map::empty()
    } else {
        let t = runs.last();
        run_cells(borders_of(runs.drop_last()), t.0, t.1, t.2, t.2 + 1)
    }
}

/// Plans borders, keyed by (row, column), that make each vertical run of a
/// rectangular header grid look merged without merging cells.
pub fn plan_vertical_visual_merge_borders(header_grid: &Vec<Vec<String>>) -> (r: std::collections::BTreeMap<
    (usize, usize),
    SpecCellBorder,
>)
    requires
        rectangular(header_grid@),
    ensures
        r@ == borders_of(vertical_runs(header_grid@)),
{
    broadcast use vstd::laws_cmp::group_laws_cmp;

    let runs = _generate_vertical_runs(header_grid);
    let ghost rv = run_views(runs@);
    proof {
        lemma_vertical_runs_bounds(header_grid@);
    }
    let mut plan: std::collections::BTreeMap<(usize, usize), SpecCellBorder> = std::collections::BTreeMap::new();
    let n_rows = header_grid.len();
    let mut k: usize = 0;
    assert(rv.subrange(0, 0) =~= Seq::<(int, int, int, Seq<char>)>::empty());
    while k < runs.len()
        invariant
            rv == run_views(runs@),
            rv == vertical_runs(header_grid@),
            forall|j: int| 0 <= j < rv.len() ==> run_in_bounds(header_grid@, #[trigger] rv[j]),
            k <= runs@.len(),
            plan@ == borders_of(rv.subrange(0, k as int)),
            n_rows == header_grid@.len(),
        decreases runs@.len() - k,
    {
        let col = runs[k].0;
        let rs = runs[k].1;
        let re = runs[k].2;
        assert(run_in_bounds(header_grid@, rv[k as int]));
        assert(rv.subrange(0, k + 1).drop_last() =~= rv.subrange(0, k as int));
        let ghost base = plan@;
        let mut r: usize = rs;
        while r <= re
            invariant
                rs <= r <= re + 1,
                re < header_grid@.len(),
                n_rows == header_grid@.len(),
                plan@ == run_cells(base, col as int, rs as int, re as int, r as int),
            decreases re + 1 - r,
        {
            let border = SpecCellBorder {
                top: if r == rs { 1 } else { 0 },
                bottom: if r == re { 1 } else { 0 },
                left: 1,
                right: 1,
            };
            plan.insert((r, col), border);
            r = r + 1;
        }
        k = k + 1;
    }
    assert(rv.subrange(0, rv.len() as int) =~= rv);
    plan
}

/// The first column from `j` on whose cell differs from `val` (or the row length).
pub open spec fn hrun_end(row: Seq<String>, val: Seq<char>, j: int) -> int
    decreases row.len() - j,
{
    if j < 0 || j >= row.len() || row[j]@ != val {
        j
    } else {
        hrun_end(row, val, j + 1)
    }
}

proof fn lemma_hrun_end_ge(row: Seq<String>, val: Seq<char>, j: int)
    ensures
        hrun_end(row, val, j) >= j,
        j >= 0 ==> hrun_end(row, val, j) <= if j > row.len() {
            j
        } else {
            row.len() as int
        },
    decreases row.len() - j,
{
    if !(j < 0 || j >= row.len() || row[j]@ != val) {
        lemma_hrun_end_ge(row, val, j + 1);
    }
}

/// The horizontal runs of a row from column `start` on: each maximal
/// stretch of two or more equal non-empty cells, as (first column, last
/// column, text).
pub open spec fn row_runs(row: Seq<String>, start: int) -> Seq<(int, int, Seq<char>)>
    decreases row.len() - start,
    via row_runs_decreases
{
    if start < 0 || start >= row.len() {
        seq![]
    } else if row[start]@.len() == 0 {
        row_runs(row, start + 1)
    } else {
        let v = row[start]@;
        let next = hrun_end(row, v, start + 1);
        (if next - start > 1 {
            seq![(start, next - 1, v)]
        } else {
            seq![]
        }) + row_runs(row, next)
    }
}

#[via_fn]
proof fn row_runs_decreases(row: Seq<String>, start: int) {
    if !(start < 0 || start >= row.len()) && row[start]@.len() != 0 {
        lemma_hrun_end_ge(row, row[start]@, start + 1);
    }
}

/// The mathematical view of a row's planned merges.
pub open spec fn merge_views(s: Seq<SpecSheetHorizontalMerge>) -> Seq<(int, int, int, Seq<char>)> {
    s.map_values(|m: SpecSheetHorizontalMerge| (m.row_idx_start as int, m.col_idx_start as int, m.col_idx_end as int, m.text@))
}

/// The merges of row `r`, as (row, first column, last column, text).
pub open spec fn row_merges(grid: Seq<Vec<String>>, r: int) -> Seq<(int, int, int, Seq<char>)> {
    row_runs(grid[r]@, 0).map_values(|t: (int, int, Seq<char>)| (r, t.0, t.1, t.2))
}

/// Plans, per header row, the merges of repeated non-empty text across
/// neighbouring columns; rows without such a run get no entry.
pub fn plan_horizontal_merges(header_grid: &Vec<Vec<String>>) -> (r: std::collections::BTreeMap<
    usize,
    Vec<SpecSheetHorizontalMerge>,
>)
    requires
        rectangular(header_grid@),
    ensures
        forall|row: usize| #[trigger] r@.contains_key(row) <==> (row < header_grid@.len() && row_merges(header_grid@, row as int).len() > 0),
        forall|row: usize| #[trigger] r@.contains_key(row) ==> merge_views(r@[row]@) == row_merges(header_grid@, row as int),
{
    broadcast use vstd::laws_cmp::group_laws_cmp;

    let mut plan: std::collections::BTreeMap<usize, Vec<SpecSheetHorizontalMerge>> = std::collections::BTreeMap::new();
    let n_rows = header_grid.len();
    if n_rows == 0 {
        return plan;
    }
    let n_cols = header_grid[0].len();
    let mut row: usize = 0;
    while row < n_rows
        invariant
            rectangular(header_grid@),
            n_rows == header_grid@.len(),
            n_rows > 0,
            n_cols == header_grid@[0]@.len(),
            row <= n_rows,
            forall|k: usize| #[trigger] plan@.contains_key(k) <==> (k < row && row_merges(header_grid@, k as int).len() > 0),
            forall|k: usize| #[trigger] plan@.contains_key(k) ==> merge_views(plan@[k]@) == row_merges(header_grid@, k as int),
        decreases n_rows - row,
    {
        let cells = &header_grid[row];
        assert(cells@.len() == n_cols);
        let ghost rr = row_runs(cells@, 0);
        let mut merges: Vec<SpecSheetHorizontalMerge> = Vec::new();
        let mut col: usize = 0;
        proof {
            assert(rr.map_values(|t: (int, int, Seq<char>)| (row as int, t.0, t.1, t.2)) =~= row_merges(header_grid@, row as int));
        }
        assert(merge_views(merges@) + row_runs(cells@, 0).map_values(|t: (int, int, Seq<char>)| (row as int, t.0, t.1, t.2))
            =~= row_merges(header_grid@, row as int));
        while col < n_cols
            invariant
                cells@ == header_grid@[row as int]@,
                cells@.len() == n_cols,
                col <= n_cols,
                merge_views(merges@) + row_runs(cells@, col as int).map_values(|t: (int, int, Seq<char>)| (row as int, t.0, t.1, t.2))
                    == row_merges(header_grid@, row as int),
            decreases n_cols - col,
        {
            let val = &cells[col];
            if val.as_str().unicode_len() == 0 {
                col = col + 1;
            } else {
                let mut end: usize = col + 1;
                while end < n_cols && cells[end] == *val
                    invariant
                        cells@.len() == n_cols,
                        col < end <= n_cols,
                        val@ == cells@[col as int]@,
                        hrun_end(cells@, val@, col + 1) == hrun_end(cells@, val@, end as int),
                    decreases n_cols - end,
                {
                    end = end + 1;
                }
                let ghost tail = row_runs(cells@, end as int).map_values(|t: (int, int, Seq<char>)| (row as int, t.0, t.1, t.2));
                let ghost before = merge_views(merges@);
                if end - col > 1 {
                    merges.push(SpecSheetHorizontalMerge {
                        row_idx_start: row,
                        col_idx_start: col,
                        col_idx_end: end - 1,
                        text: val.clone(),
                    });
                    assert(merge_views(merges@) =~= before + seq![(row as int, col as int, end - 1, val@)]);
                    assert(row_runs(cells@, col as int).map_values(|t: (int, int, Seq<char>)| (row as int, t.0, t.1, t.2))
                        =~= seq![(row as int, col as int, end - 1, val@)] + tail);
                } else {
                    assert(row_runs(cells@, col as int).map_values(|t: (int, int, Seq<char>)| (row as int, t.0, t.1, t.2))
                        =~= tail);
                }
                col = end;
            }
        }
        assert(merge_views(merges@) + seq![] =~= merge_views(merges@));
        assert(merge_views(merges@) == row_merges(header_grid@, row as int));
        if merges.len() > 0 {
            plan.insert(row, merges);
        }
        row = row + 1;
    }
    plan
}

/// Whether a merge of row-list `merges` covers column `col` past its anchor.
pub open spec fn merges_cover(merges: Seq<SpecSheetHorizontalMerge>, col: usize) -> bool {
    exists|k: int| 0 <= k < merges.len() && (#[trigger] merges[k]).col_idx_start < col <= merges[k].col_idx_end
}

/// Marks, keyed by (row, column), every cell that a horizontal merge covers
/// besides its anchor cell.
pub fn derive_horizontal_merge_tracker(
    row_horizontal_merge_mapping: &std::collections::BTreeMap<usize, Vec<SpecSheetHorizontalMerge>>,
) -> (r: std::collections::BTreeMap<(usize, usize), bool>)
    ensures
        forall|row: usize, col: usize| #[trigger] r@.contains_key((row, col)) <==> (
            row_horizontal_merge_mapping@.contains_key(row) && merges_cover(row_horizontal_merge_mapping@[row]@, col)),
        forall|key: (usize, usize)| #[trigger] r@.contains_key(key) ==> r@[key],
{
    broadcast use vstd::laws_cmp::group_laws_cmp;
    broadcast use vstd::std_specs::btree::group_btree_axioms;

    let mut tracker: std::collections::BTreeMap<(usize, usize), bool> = std::collections::BTreeMap::new();
    for entry in it: row_horizontal_merge_mapping.iter()
        invariant
            forall|key: (usize, usize)| #[trigger] tracker@.contains_key(key) ==> tracker@[key],
            forall|row: usize, col: usize| #[trigger] tracker@.contains_key((row, col)) <==> exists|i: int|
                0 <= i < it.index() && *it.seq()[i].0 == row && merges_cover(it.seq()[i].1@, col),
    {
        let (row_idx, merges) = entry;
        let ghost done = tracker@;
        let mut m: usize = 0;
        while m < merges.len()
            invariant
                m <= merges@.len(),
                forall|key: (usize, usize)| #[trigger] tracker@.contains_key(key) ==> tracker@[key],
                forall|row: usize, col: usize| #[trigger] tracker@.contains_key((row, col)) <==> (done.contains_key((row, col))
                    || (row == *row_idx && merges_cover(merges@.subrange(0, m as int), col))),
            decreases merges@.len() - m,
        {
            let start = merges[m].col_idx_start;
            let end = merges[m].col_idx_end;
            let ghost pre = merges@.subrange(0, m as int);
            let ghost next = merges@.subrange(0, m + 1);
            assert forall|col: usize| #[trigger] merges_cover(next, col) <==> (merges_cover(pre, col) || (start < col <= end)) by {
                if merges_cover(pre, col) {
                    let k = choose|k: int| 0 <= k < pre.len() && (#[trigger] pre[k]).col_idx_start < col <= pre[k].col_idx_end;
                    assert(next[k] == pre[k]);
                }
                if start < col <= end {
                    assert(next[m as int] == merges@[m as int]);
                }
                if merges_cover(next, col) {
                    let k = choose|k: int| 0 <= k < next.len() && (#[trigger] next[k]).col_idx_start < col <= next[k].col_idx_end;
                    if k < m {
                        assert(pre[k] == next[k]);
                    }
                }
            }
            let n = if start < end {
                end - start
            } else {
                0
            };
            let mut j: usize = 0;
            while j < n
                invariant
                    j <= n,
                    n == (if start < end { end - start } else { 0 }),
                    forall|key: (usize, usize)| #[trigger] tracker@.contains_key(key) ==> tracker@[key],
                    forall|row: usize, c: usize| #[trigger] tracker@.contains_key((row, c)) <==> (done.contains_key((row, c))
                        || (row == *row_idx && merges_cover(pre, c))
                        || (row == *row_idx && start < c <= start + j)),
                decreases n - j,
            {
                tracker.insert((*row_idx, start + 1 + j), true);
                j = j + 1;
            }
            m = m + 1;
        }
        proof {
            assert(merges@.subrange(0, merges@.len() as int) =~= merges@);
        }
    }
    tracker
}

/// Whether a vertical run covers cell (`r`, `c`) below its first row.
pub open spec fn blanked(runs: Seq<(int, int, int, Seq<char>)>, r: int, c: int) -> bool {
    exists|k: int| 0 <= k < runs.len() && (#[trigger] runs[k]).0 == c && runs[k].1 < r <= runs[k].2
}

/// Clears the repeated text of each vertical run, keeping only its first
/// row's text.
pub fn apply_vertical_run_text_blankout(header_grid: &mut Vec<Vec<String>>)
    requires
        rectangular(old(header_grid)@),
    ensures
        final(header_grid)@.len() == old(header_grid)@.len(),
        forall|r: int|
            0 <= r < old(header_grid)@.len() ==> (#[trigger] final(header_grid)@[r])@.len() == old(
                header_grid,
            )@[r]@.len(),
        forall|r: int, c: int|
            0 <= r < old(header_grid)@.len() && 0 <= c < old(header_grid)@[r]@.len() ==> #[trigger] cell(
                final(header_grid)@,
                r,
                c,
            ) == if blanked(vertical_runs(old(header_grid)@), r, c) {
                Seq::<char>::empty()
            } else {
                cell(old(header_grid)@, r, c)
            },
{
    let runs = _generate_vertical_runs(header_grid);
    let ghost g0 = header_grid@;
    let ghost rv = run_views(runs@);
    proof {
        lemma_vertical_runs_bounds(g0);
    }
    let n_rows = header_grid.len();
    let mut k: usize = 0;
    while k < runs.len()
        invariant
            n_rows == g0.len(),
            g0 == old(header_grid)@,
            rectangular(g0),
            rv == run_views(runs@),
            rv == vertical_runs(g0),
            k <= runs@.len(),
            forall|j: int| 0 <= j < rv.len() ==> run_in_bounds(g0, #[trigger] rv[j]),
            header_grid@.len() == g0.len(),
            forall|r: int| 0 <= r < g0.len() ==> (#[trigger] header_grid@[r])@.len() == g0[r]@.len(),
            forall|r: int, c: int|
                0 <= r < g0.len() && 0 <= c < g0[r]@.len() ==> #[trigger] cell(header_grid@, r, c)
                    == if blanked(rv.subrange(0, k as int), r, c) {
                    Seq::<char>::empty()
                } else {
                    cell(g0, r, c)
                },
        decreases runs@.len() - k,
    {
        let col = runs[k].0;
        let rs = runs[k].1;
        let re = runs[k].2;
        assert(run_in_bounds(g0, rv[k as int]));
        let ghost pre = rv.subrange(0, k as int);
        let ghost cur = rv.subrange(0, k + 1);
        assert forall|r: int, c: int| #[trigger] blanked(cur, r, c) <==> (blanked(pre, r, c) || (c == col && rs < r <= re)) by {
            if blanked(pre, r, c) {
                let j = choose|j: int| 0 <= j < pre.len() && (#[trigger] pre[j]).0 == c && pre[j].1 < r <= pre[j].2;
                assert(cur[j] == pre[j]);
            }
            if c == col && rs < r <= re {
                assert(cur[k as int] == rv[k as int]);
            }
            if blanked(cur, r, c) {
                let j = choose|j: int| 0 <= j < cur.len() && (#[trigger] cur[j]).0 == c && cur[j].1 < r <= cur[j].2;
                if j < k {
                    assert(pre[j] == cur[j]);
                }
            }
        }
        let mut r: usize = rs + 1;
        while r <= re
            invariant
                g0 == old(header_grid)@,
                rectangular(g0),
                rs < re,
                re < g0.len(),
                n_rows == g0.len(),
                col < g0[0]@.len(),
                rs + 1 <= r <= re + 1,
                header_grid@.len() == g0.len(),
                forall|i: int| 0 <= i < g0.len() ==> (#[trigger] header_grid@[i])@.len() == g0[i]@.len(),
                forall|i: int, c: int|
                    0 <= i < g0.len() && 0 <= c < g0[i]@.len() ==> #[trigger] cell(header_grid@, i, c)
                        == if blanked(pre, i, c) || (c == col && rs < i < r) {
                        Seq::<char>::empty()
                    } else {
                        cell(g0, i, c)
                    },
            decreases re + 1 - r,
        {
            assert(g0[r as int]@.len() == g0[0]@.len());
            let ghost before = header_grid@;
            header_grid[r][col] = String::new();
            assert forall|i: int, c: int|
                0 <= i < g0.len() && 0 <= c < g0[i]@.len() implies #[trigger] cell(header_grid@, i, c)
                    == if blanked(pre, i, c) || (c == col && rs < i < r + 1) {
                    Seq::<char>::empty()
                } else {
                    cell(g0, i, c)
                } by {
                if i != r || c != col {
                    assert(cell(header_grid@, i, c) == cell(before, i, c));
                }
            }
            r = r + 1;
        }
        k = k + 1;
    }
    assert(rv.subrange(0, rv.len() as int) =~= rv);
}

/// A run's column and rows lie within the grid, its first row above its last.
pub open spec fn run_in_bounds(grid: Seq<Vec<String>>, t: (int, int, int, Seq<char>)) -> bool {
    &&& grid.len() > 0
    &&& 0 <= t.0 < grid[0]@.len()
    &&& 0 <= t.1 < t.2 < grid.len()
}

proof fn lemma_col_runs_bounds(grid: Seq<Vec<String>>, c: int, start: int)
    requires
        grid.len() > 0,
        0 <= c < grid[0]@.len(),
        0 <= start,
    ensures
        forall|j: int| 0 <= j < col_runs(grid, c, start).len() ==> run_in_bounds(grid, #[trigger] col_runs(grid, c, start)[j]),
    decreases grid.len() - start,
{
    if start < grid.len() {
        if cell(grid, start, c).len() == 0 {
            lemma_col_runs_bounds(grid, c, start + 1);
            assert(col_runs(grid, c, start) == col_runs(grid, c, start + 1));
        } else {
            let v = cell(grid, start, c);
            let next = run_end(grid, c, v, start + 1);
            lemma_run_end_ge(grid, c, v, start + 1);
            lemma_col_runs_bounds(grid, c, next);
            let head: Seq<(int, int, int, Seq<char>)> = if next - start > 1 {
                seq![(c, start, next - 1, v)]
            } else {
                seq![]
            };
            let tail = col_runs(grid, c, next);
            assert(col_runs(grid, c, start) == head + tail);
            assert(next <= grid.len());
            if next - start > 1 {
                assert(run_in_bounds(grid, head[0]));
            }
            assert forall|j: int| 0 <= j < (head + tail).len() implies run_in_bounds(grid, #[trigger] (head + tail)[j]) by {
                if j >= head.len() {
                    assert((head + tail)[j] == tail[j - head.len()]);
                }
            }
        }
    }
}

proof fn lemma_runs_upto_bounds(grid: Seq<Vec<String>>, n_cols: int)
    requires
        grid.len() > 0,
        n_cols <= grid[0]@.len(),
    ensures
        forall|j: int| 0 <= j < runs_upto(grid, n_cols).len() ==> run_in_bounds(grid, #[trigger] runs_upto(grid, n_cols)[j]),
    decreases n_cols,
{
    if n_cols > 0 {
        lemma_runs_upto_bounds(grid, n_cols - 1);
        lemma_col_runs_bounds(grid, n_cols - 1, 0);
        let a = runs_upto(grid, n_cols - 1);
        let b = col_runs(grid, n_cols - 1, 0);
        assert forall|j: int| 0 <= j < (a + b).len() implies run_in_bounds(grid, #[trigger] (a + b)[j]) by {
            if j >= a.len() {
                assert((a + b)[j] == b[j - a.len()]);
            } else {
                assert((a + b)[j] == a[j]);
            }
        }
    }
}

proof fn lemma_vertical_runs_bounds(grid: Seq<Vec<String>>)
    ensures
        forall|j: int| 0 <= j < vertical_runs(grid).len() ==> run_in_bounds(grid, #[trigger] vertical_runs(grid)[j]),
{
    if grid.len() > 0 {
        lemma_runs_upto_bounds(grid, grid[0]@.len() as int);
    }
}

} // verus!
