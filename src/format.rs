//! Cell formats of the spreadsheet writer, the autofit policy, and the
//! index helpers of its write loop.
use vstd::prelude::*;

use crate::text::{decimal, u64_to_decimal};

verus! {

/// A cell format; an absent property defers to the format underneath.
#[derive(Debug, Clone, Default)]
pub struct SpecCellFormat {
    /// Font family name.
    pub font_name: Option<String>,
    /// Font size in points.
    pub font_size: Option<i64>,
    /// Bold style.
    pub bold: Option<bool>,
    /// Italic style.
    pub italic: Option<bool>,
    /// Horizontal alignment.
    pub align: Option<String>,
    /// Vertical alignment.
    pub valign: Option<String>,
    /// Border style for all sides.
    pub border: Option<i64>,
    /// Text wrap.
    pub text_wrap: Option<bool>,
    /// Top border override.
    pub top: Option<i64>,
    /// Bottom border override.
    pub bottom: Option<i64>,
    /// Left border override.
    pub left: Option<i64>,
    /// Right border override.
    pub right: Option<i64>,
    /// Number format code.
    pub num_format: Option<String>,
    /// Background fill color.
    pub bg_color: Option<String>,
    /// Font color.
    pub font_color: Option<String>,
}

/// `over` where it is set, else `under`.
pub open spec fn overlay<T>(over: Option<T>, under: Option<T>) -> Option<T> {
    match over {
        Some(v) => Some(v),
        None => under,
    }
}

fn overlay_text(over: &Option<String>, under: &Option<String>) -> (r: Option<String>)
    ensures
        r == overlay(*over, *under),
{
    match over {
        Some(v) => Some(v.clone()),
        None => match under {
            Some(v) => Some(v.clone()),
            None => None,
        },
    }
}

fn overlay_copy<T: Copy>(over: Option<T>, under: Option<T>) -> (r: Option<T>)
    ensures
        r == overlay(over, under),
{
    match over {
        Some(v) => Some(v),
        None => under,
    }
}

impl SpecCellFormat {
    /// Each property of `other` where it is set, else of `base`.
    pub open spec fn merged(base: SpecCellFormat, other: SpecCellFormat) -> SpecCellFormat {
        SpecCellFormat {
            font_name: overlay(other.font_name, base.font_name),
            font_size: overlay(other.font_size, base.font_size),
            bold: overlay(other.bold, base.bold),
            italic: overlay(other.italic, base.italic),
            align: overlay(other.align, base.align),
            valign: overlay(other.valign, base.valign),
            border: overlay(other.border, base.border),
            text_wrap: overlay(other.text_wrap, base.text_wrap),
            top: overlay(other.top, base.top),
            bottom: overlay(other.bottom, base.bottom),
            left: overlay(other.left, base.left),
            right: overlay(other.right, base.right),
            num_format: overlay(other.num_format, base.num_format),
            bg_color: overlay(other.bg_color, base.bg_color),
            font_color: overlay(other.font_color, base.font_color),
        }
    }

    /// This format with `other` laid over it: each property set in `other`
    /// wins.
    pub fn merge(&self, other: &SpecCellFormat) -> (r: SpecCellFormat)
        ensures
            r == Self::merged(*self, *other),
    {
        SpecCellFormat {
            font_name: overlay_text(&other.font_name, &self.font_name),
            font_size: overlay_copy(other.font_size, self.font_size),
            bold: overlay_copy(other.bold, self.bold),
            italic: overlay_copy(other.italic, self.italic),
            align: overlay_text(&other.align, &self.align),
            valign: overlay_text(&other.valign, &self.valign),
            border: overlay_copy(other.border, self.border),
            text_wrap: overlay_copy(other.text_wrap, self.text_wrap),
            top: overlay_copy(other.top, self.top),
            bottom: overlay_copy(other.bottom, self.bottom),
            left: overlay_copy(other.left, self.left),
            right: overlay_copy(other.right, self.right),
            num_format: overlay_text(&other.num_format, &self.num_format),
            bg_color: overlay_text(&other.bg_color, &self.bg_color),
            font_color: overlay_text(&other.font_color, &self.font_color),
        }
    }

    /// A new format: this one with `patch` laid over it.
    pub fn with_(&self, patch: SpecCellFormat) -> (r: SpecCellFormat)
        ensures
            r == Self::merged(*self, patch),
    {
        self.merge(&patch)
    }
}

/// A field-by-field copy of a format.
pub fn copy_format(f: &SpecCellFormat) -> (r: SpecCellFormat)
    ensures
        r == *f,
{
    SpecCellFormat {
        font_name: overlay_text(&f.font_name, &None),
        font_size: f.font_size,
        bold: f.bold,
        italic: f.italic,
        align: overlay_text(&f.align, &None),
        valign: overlay_text(&f.valign, &None),
        border: f.border,
        text_wrap: f.text_wrap,
        top: f.top,
        bottom: f.bottom,
        left: f.left,
        right: f.right,
        num_format: overlay_text(&f.num_format, &None),
        bg_color: overlay_text(&f.bg_color, &None),
        font_color: overlay_text(&f.font_color, &None),
    }
}

/// What `plan_column_formats` works from, for one sheet.
pub struct SpecColumnFormatPlanOptions<'a> {
    /// Number of columns in the sheet.
    pub width_data: usize,
    /// Sheet-local numeric column indices.
    pub cols_idx_numeric: &'a Vec<usize>,
    /// Sheet-local integer column indices.
    pub cols_idx_integer: &'a Vec<usize>,
    /// Sheet-local explicit decimal column indices, when given.
    pub cols_idx_decimal: Option<&'a Vec<usize>>,
    /// Sheet-local scientific column indices.
    pub cols_idx_scientific: &'a Vec<usize>,
    /// Per-column format overrides.
    pub cols_fmt_overrides: &'a std::collections::BTreeMap<usize, SpecCellFormat>,
    /// Base text format.
    pub fmt_text: &'a SpecCellFormat,
    /// Base integer format.
    pub fmt_integer: &'a SpecCellFormat,
    /// Base decimal format.
    pub fmt_decimal: &'a SpecCellFormat,
    /// Base scientific format.
    pub fmt_scientific: &'a SpecCellFormat,
    /// Patch laid over every base format.
    pub base_format_patch: &'a SpecCellFormat,
}

/// Base and final formats per column.
pub struct SpecColumnFormatPlan {
    /// Final format of each column.
    pub fmts_by_col: Vec<SpecCellFormat>,
    /// Base format of each column, before its override.
    pub fmts_base_by_col: Vec<SpecCellFormat>,
}

/// The format a column starts from: scientific, else integer, else decimal
/// (the explicit decimal columns when given, else the numeric ones), else text.
pub open spec fn kind_format(o: SpecColumnFormatPlanOptions, c: usize) -> SpecCellFormat {
    if o.cols_idx_scientific@.contains(c) {
        *o.fmt_scientific
    } else if o.cols_idx_integer@.contains(c) {
        *o.fmt_integer
    } else if (match o.cols_idx_decimal {
        Some(d) => d@.contains(c),
        None => o.cols_idx_numeric@.contains(c),
    }) {
        *o.fmt_decimal
    } else {
        *o.fmt_text
    }
}

fn index_listed(v: &Vec<usize>, x: usize) -> (r: bool)
    ensures
        r == v@.contains(x),
{
    let mut i: usize = 0;
    while i < v.len()
        invariant
            i <= v@.len(),
            forall|k: int| 0 <= k < i ==> v@[k] != x,
        decreases v@.len() - i,
    {
        if v[i] == x {
            assert(v@[i as int] == x);
            return true;
        }
        i = i + 1;
    }
    false
}

/// Plans each column's base format (its kind's format with the base patch
/// laid over it) and final format (the base with the column's override, if
/// any, laid over it).
pub fn plan_column_formats(options: SpecColumnFormatPlanOptions) -> (r: SpecColumnFormatPlan)
    ensures
        r.fmts_base_by_col@.len() == options.width_data,
        r.fmts_by_col@.len() == options.width_data,
        forall|c: int|
            0 <= c < options.width_data ==> #[trigger] r.fmts_base_by_col@[c] == SpecCellFormat::merged(
                kind_format(options, c as usize),
                *options.base_format_patch,
            ),
        forall|c: int|
            0 <= c < options.width_data ==> #[trigger] r.fmts_by_col@[c] == if options.cols_fmt_overrides@.contains_key(c as usize) {
                SpecCellFormat::merged(r.fmts_base_by_col@[c], options.cols_fmt_overrides@[c as usize])
            } else {
                r.fmts_base_by_col@[c]
            },
{
    broadcast use vstd::laws_cmp::group_laws_cmp;

    let mut bases: Vec<SpecCellFormat> = Vec::new();
    let mut finals: Vec<SpecCellFormat> = Vec::new();
    let mut c: usize = 0;
    while c < options.width_data
        invariant
            c <= options.width_data,
            bases@.len() == c,
            finals@.len() == c,
            forall|k: int|
                0 <= k < c ==> #[trigger] bases@[k] == SpecCellFormat::merged(
                    kind_format(options, k as usize),
                    *options.base_format_patch,
                ),
            forall|k: int|
                0 <= k < c ==> #[trigger] finals@[k] == if options.cols_fmt_overrides@.contains_key(k as usize) {
                    SpecCellFormat::merged(bases@[k], options.cols_fmt_overrides@[k as usize])
                } else {
                    bases@[k]
                },
        decreases options.width_data - c,
    {
        let kind = if index_listed(options.cols_idx_scientific, c) {
            options.fmt_scientific
        } else if index_listed(options.cols_idx_integer, c) {
            options.fmt_integer
        } else if match options.cols_idx_decimal {
            Some(d) => index_listed(d, c),
            None => index_listed(options.cols_idx_numeric, c),
        } {
            options.fmt_decimal
        } else {
            options.fmt_text
        };
        let base = kind.merge(options.base_format_patch);
        let fin = match options.cols_fmt_overrides.get(&c) {
            Some(fmt_override) => base.merge(fmt_override),
            None => copy_format(&base),
        };
        bases.push(base);
        finals.push(fin);
        c = c + 1;
    }
    SpecColumnFormatPlan { fmts_by_col: finals, fmts_base_by_col: bases }
}

/// Laying a format over another and then a third over the result is laying
/// the second-then-third combination over the first.
pub proof fn lemma_merge_associative(a: SpecCellFormat, b: SpecCellFormat, c: SpecCellFormat)
    ensures
        SpecCellFormat::merged(SpecCellFormat::merged(a, b), c) == SpecCellFormat::merged(
            a,
            SpecCellFormat::merged(b, c),
        ),
{
}

/// Which cells the column width is inferred from.
#[derive(Debug, Clone, Copy, PartialEq, Eq, Structural)]
pub enum EnumAutofitColumnsRule {
    /// Disable autofit.
    Disabled,
    /// Infer width from header cells only.
    Header,
    /// Infer width from body cells only.
    Body,
    /// Infer width from both header and body cells.
    All,
}

/// Autofit policy of a sheet write.
#[derive(Debug, Clone, Copy, PartialEq, Eq, Structural)]
pub struct SpecAutofitCellsPolicy {
    /// Width inference rule.
    pub rule_columns: EnumAutofitColumnsRule,
    /// Most body rows inspected when body cells count.
    pub height_body_inferred_max: Option<usize>,
    /// Smallest final width.
    pub width_cell_min: usize,
    /// Largest final width.
    pub width_cell_max: usize,
    /// Padding added after inference.
    pub width_cell_padding: usize,
}

impl Default for SpecAutofitCellsPolicy {
    fn default() -> (r: Self)
        ensures
            r.rule_columns == EnumAutofitColumnsRule::Header,
            r.height_body_inferred_max == Some(20000usize),
            r.width_cell_min == 8,
            r.width_cell_max == 60,
            r.width_cell_padding == 2,
    {
        SpecAutofitCellsPolicy {
            rule_columns: EnumAutofitColumnsRule::Header,
            height_body_inferred_max: Some(20000),
            width_cell_min: 8,
            width_cell_max: 60,
            width_cell_padding: 2,
        }
    }
}

/// Checks an autofit policy: the minimum width is at least one and the
/// maximum is no smaller than the minimum.
pub fn validate_policy_autofit(policy_autofit: &SpecAutofitCellsPolicy) -> (r: Result<(), String>)
    ensures
        r is Ok <==> (policy_autofit.width_cell_min >= 1 && policy_autofit.width_cell_max
            >= policy_autofit.width_cell_min),
        policy_autofit.width_cell_min == 0 ==> r is Err && r->Err_0@
            == "policy_autofit.width_cell_min must be >= 1."@,
        policy_autofit.width_cell_min >= 1 && policy_autofit.width_cell_max < policy_autofit.width_cell_min
            ==> r is Err && r->Err_0@
            == "policy_autofit.width_cell_max must be >= policy_autofit.width_cell_min."@,
{
    if policy_autofit.width_cell_min == 0 {
        return Err(String::from_str("policy_autofit.width_cell_min must be >= 1."));
    }
    if policy_autofit.width_cell_max < policy_autofit.width_cell_min {
        return Err(
            String::from_str("policy_autofit.width_cell_max must be >= policy_autofit.width_cell_min."),
        );
    }
    Ok(())
}

/// The indices of `indices` inside `[start, end)`, shifted to start at zero,
/// in order.
pub open spec fn slice_indices(indices: Seq<usize>, start: usize, end: usize) -> Seq<usize>
    decreases indices.len(),
{
    if indices.len() == 0 {
        seq![]
    } else {
        let x = indices.last();
        slice_indices(indices.drop_last(), start, end) + if start <= x < end {
            seq![(x - start) as usize]
        } else {
            seq![]
        }
    }
}

/// Selects the indices inside a column range and makes them relative to its start.
pub fn derive_slice_indices(indices: &Vec<usize>, col_start_inclusive: usize, col_end_exclusive: usize) -> (r: Vec<usize>)
    ensures
        r@ == slice_indices(indices@, col_start_inclusive, col_end_exclusive),
{
    let mut out: Vec<usize> = Vec::new();
    let mut i: usize = 0;
    let ghost s = indices@;
    assert(s.subrange(0, 0) =~= Seq::<usize>::empty());
    while i < indices.len()
        invariant
            s == indices@,
            i <= s.len(),
            out@ == slice_indices(s.subrange(0, i as int), col_start_inclusive, col_end_exclusive),
        decreases s.len() - i,
    {
        let idx = indices[i];
        assert(s.subrange(0, i + 1).drop_last() =~= s.subrange(0, i as int));
        let ghost before = out@;
        if idx >= col_start_inclusive && idx < col_end_exclusive {
            out.push(idx - col_start_inclusive);
        } else {
            assert(before + seq![] =~= before);
        }
        i = i + 1;
    }
    assert(s.subrange(0, s.len() as int) =~= s);
    out
}

/// A row index as the worksheet's 32-bit row number.
pub fn cast_row_num(value: usize) -> (r: Result<u32, String>)
    ensures
        r is Ok <==> value <= u32::MAX,
        r is Ok ==> r->Ok_0 == value,
        r is Err ==> r->Err_0@ == "row index overflow: "@ + decimal(value as nat),
{
    if value <= 4294967295 {
        Ok(value as u32)
    } else {
        let mut msg = String::from_str("row index overflow: ");
        msg.append(u64_to_decimal(value as u64).as_str());
        Err(msg)
    }
}

/// A column index as the worksheet's 16-bit column number.
pub fn cast_col_num(value: usize) -> (r: Result<u16, String>)
    ensures
        r is Ok <==> value <= u16::MAX,
        r is Ok ==> r->Ok_0 == value,
        r is Err ==> r->Err_0@ == "column index overflow: "@ + decimal(value as nat),
{
    if value <= 65535 {
        Ok(value as u16)
    } else {
        let mut msg = String::from_str("column index overflow: ");
        msg.append(u64_to_decimal(value as u64).as_str());
        Err(msg)
    }
}

} // verus!
