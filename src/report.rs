//! The run report: an accumulating builder and the finished, read-only report.
use vstd::prelude::*;

use crate::spec::SpecCopyError;
use crate::text::{decimal, str_eq, u64_to_decimal};

verus! {

/// Aggregate counters and diagnostics of one copy run.
#[derive(Debug, Default, Clone)]
pub struct ReportCopy {
    /// Number of scanned entries that matched filters.
    pub cnt_matched: u64,
    /// Total scanned directory/file entries.
    pub cnt_scanned: u64,
    /// Number of entries successfully committed.
    pub cnt_copied: u64,
    /// Number of entries skipped by strategy or dry-run.
    pub cnt_skipped: u64,
    /// Non-fatal warnings collected during traversal/copy.
    pub warnings: Vec<String>,
    /// Per-entry failures.
    pub errors: Vec<SpecCopyError>,
}

/// The one-line summary of a report's counters, after `prefix`.
pub open spec fn summary_text(
    prefix: Seq<char>,
    matched: nat,
    scanned: nat,
    copied: nat,
    skipped: nat,
    errors: nat,
    warnings: nat,
) -> Seq<char> {
    prefix + " matched="@ + decimal(matched) + " scanned="@ + decimal(scanned) + " copied="@
        + decimal(copied) + " skipped="@ + decimal(skipped) + " errors="@ + decimal(errors)
        + " warnings="@ + decimal(warnings)
}

impl ReportCopy {
    /// Number of collected per-entry errors.
    pub fn error_count(&self) -> (r: usize)
        ensures
            r == self.errors@.len(),
    {
        self.errors.len()
    }

    /// Number of collected warnings.
    pub fn warning_count(&self) -> (r: usize)
        ensures
            r == self.warnings@.len(),
    {
        self.warnings.len()
    }

    /// Machine-readable counters, as (name, value) pairs in a fixed order:
    /// matched, scanned, copied, skipped, errors, warnings.
    pub fn to_dict(&self) -> (r: Vec<(String, u64)>)
        ensures
            r@.len() == 6,
            r@[0].0@ == "cnt_matched"@ && r@[0].1 == self.cnt_matched,
            r@[1].0@ == "cnt_scanned"@ && r@[1].1 == self.cnt_scanned,
            r@[2].0@ == "cnt_copied"@ && r@[2].1 == self.cnt_copied,
            r@[3].0@ == "cnt_skipped"@ && r@[3].1 == self.cnt_skipped,
            r@[4].0@ == "cnt_errors"@ && r@[4].1 == self.errors@.len(),
            r@[5].0@ == "cnt_warnings"@ && r@[5].1 == self.warnings@.len(),
    {
        let mut r: Vec<(String, u64)> = Vec::new();
        r.push((String::from_str("cnt_matched"), self.cnt_matched));
        r.push((String::from_str("cnt_scanned"), self.cnt_scanned));
        r.push((String::from_str("cnt_copied"), self.cnt_copied));
        r.push((String::from_str("cnt_skipped"), self.cnt_skipped));
        r.push((String::from_str("cnt_errors"), self.error_count() as u64));
        r.push((String::from_str("cnt_warnings"), self.warning_count() as u64));
        r
    }

    /// Human-readable one-line summary:
    /// `"<prefix> matched=.. scanned=.. copied=.. skipped=.. errors=.. warnings=.."`.
    pub fn format(&self, prefix: &str) -> (r: String)
        ensures
            r@ == summary_text(
                prefix@,
                self.cnt_matched as nat,
                self.cnt_scanned as nat,
                self.cnt_copied as nat,
                self.cnt_skipped as nat,
                self.errors@.len(),
                self.warnings@.len(),
            ),
    {
        let mut r = String::from_str(prefix);
        r.append(" matched=");
        r.append(u64_to_decimal(self.cnt_matched).as_str());
        r.append(" scanned=");
        r.append(u64_to_decimal(self.cnt_scanned).as_str());
        r.append(" copied=");
        r.append(u64_to_decimal(self.cnt_copied).as_str());
        r.append(" skipped=");
        r.append(u64_to_decimal(self.cnt_skipped).as_str());
        r.append(" errors=");
        r.append(u64_to_decimal(self.error_count() as u64).as_str());
        r.append(" warnings=");
        r.append(u64_to_decimal(self.warning_count() as u64).as_str());
        r
    }

    /// The summary with the default `[COPY]` prefix, as the report displays.
    pub fn to_string(&self) -> (r: String)
        ensures
            r@ == summary_text(
                "[COPY]"@,
                self.cnt_matched as nat,
                self.cnt_scanned as nat,
                self.cnt_copied as nat,
                self.cnt_skipped as nat,
                self.errors@.len(),
                self.warnings@.len(),
            ),
    {
        self.format("[COPY]")
    }
}

/// Mutable accumulator of a run's counters and diagnostics.
#[derive(Debug, Default, Clone)]
pub struct ReportCopyBuilder {
    /// See [`ReportCopy::cnt_matched`].
    pub cnt_matched: u64,
    /// See [`ReportCopy::cnt_scanned`].
    pub cnt_scanned: u64,
    /// See [`ReportCopy::cnt_copied`].
    pub cnt_copied: u64,
    /// See [`ReportCopy::cnt_skipped`].
    pub cnt_skipped: u64,
    /// See [`ReportCopy::errors`].
    pub errors: Vec<SpecCopyError>,
    /// See [`ReportCopy::warnings`].
    pub warnings: Vec<String>,
}

/// How many of `names` equal `key`.
pub open spec fn count_name(names: Seq<&str>, key: Seq<char>) -> nat
    decreases names.len(),
{
    if names.len() == 0 {
        0
    } else {
        count_name(names.drop_last(), key) + if names.last()@ == key {
            1nat
        } else {
            0nat
        }
    }
}

proof fn lemma_count_name_prefix(names: Seq<&str>, key: Seq<char>, i: int)
    requires
        0 <= i <= names.len(),
    ensures
        count_name(names.subrange(0, i), key) <= count_name(names, key),
    decreases names.len(),
{
    if i < names.len() {
        assert(names.drop_last() =~= names.subrange(0, names.len() - 1));
        lemma_count_name_prefix(names.drop_last(), key, i);
        assert(names.drop_last().subrange(0, i) =~= names.subrange(0, i));
    } else {
        assert(names.subrange(0, i) =~= names);
    }
}

proof fn lemma_count_step(names: Seq<&str>, key: Seq<char>, i: int)
    requires
        0 <= i < names.len(),
    ensures
        count_name(names.subrange(0, i + 1), key) == count_name(names.subrange(0, i), key) + if names[i]@ == key {
            1nat
        } else {
            0nat
        },
{
    assert(names.subrange(0, i + 1).drop_last() =~= names.subrange(0, i));
}

proof fn lemma_scaled_zero(v: u64)
    ensures
        v * 0nat == 0,
{
    assert(v * 0nat == 0) by (nonlinear_arith);
}

proof fn lemma_scaled_step(v: u64, a: nat, b: nat)
    ensures
        v * (a + 1) == v * a + v,
        a + 1 <= b ==> v * (a + 1) <= v * b,
{
    assert(v * (a + 1) == v * a + v) by (nonlinear_arith);
    if a + 1 <= b {
        assert(v * (a + 1) <= v * b) by (nonlinear_arith)
            requires
                a + 1 <= b,
        ;
    }
}

/// Counter value after adding `value` once per occurrence of the counter's name.
pub open spec fn counter_after(old: u64, names: Seq<&str>, key: Seq<char>, value: u64) -> int {
    old + value * count_name(names, key)
}

/// The builder's four counters, in the order matched, scanned, copied, skipped.
pub open spec fn counters(b: ReportCopyBuilder) -> (u64, u64, u64, u64) {
    (b.cnt_matched, b.cnt_scanned, b.cnt_copied, b.cnt_skipped)
}

/// `new` is `old` with one error (`path`, `msg`) appended and nothing else changed.
pub open spec fn error_added(
    old: ReportCopyBuilder,
    new: ReportCopyBuilder,
    path: Seq<char>,
    msg: Seq<char>,
) -> bool {
    &&& new.errors@.len() == old.errors@.len() + 1
    &&& new.errors@.drop_last() == old.errors@
    &&& new.errors@.last().path@ == path
    &&& new.errors@.last().exception@ == msg
    &&& new.warnings@ == old.warnings@
    &&& counters(new) == counters(old)
}

/// `new` is `old` with one warning `msg` appended and nothing else changed.
pub open spec fn warning_added(old: ReportCopyBuilder, new: ReportCopyBuilder, msg: Seq<char>) -> bool {
    &&& new.warnings@.len() == old.warnings@.len() + 1
    &&& new.warnings@.drop_last() == old.warnings@
    &&& new.warnings@.last()@ == msg
    &&& new.errors@ == old.errors@
    &&& counters(new) == counters(old)
}

/// `new` is `old` with the counters moved by the given amounts and the
/// diagnostics unchanged.
pub open spec fn counted(
    old: ReportCopyBuilder,
    new: ReportCopyBuilder,
    matched: int,
    scanned: int,
    copied: int,
    skipped: int,
) -> bool {
    &&& new.cnt_matched == old.cnt_matched + matched
    &&& new.cnt_scanned == old.cnt_scanned + scanned
    &&& new.cnt_copied == old.cnt_copied + copied
    &&& new.cnt_skipped == old.cnt_skipped + skipped
    &&& new.errors@ == old.errors@
    &&& new.warnings@ == old.warnings@
}

/// The (path, message) texts of the builder's errors.
pub open spec fn error_views(b: ReportCopyBuilder) -> Seq<(Seq<char>, Seq<char>)> {
    b.errors@.map_values(|e: SpecCopyError| (e.path@, e.exception@))
}

/// The texts of the builder's warnings.
pub open spec fn warning_views(b: ReportCopyBuilder) -> Seq<Seq<char>> {
    b.warnings@.map_values(|w: String| w@)
}

/// `new` is `old` with the errors `errs` and warnings `warns` appended and
/// the counters moved by the given amounts.
pub open spec fn logged(
    old: ReportCopyBuilder,
    new: ReportCopyBuilder,
    errs: Seq<(Seq<char>, Seq<char>)>,
    warns: Seq<Seq<char>>,
    matched: int,
    scanned: int,
    copied: int,
    skipped: int,
) -> bool {
    &&& error_views(new) == error_views(old) + errs
    &&& warning_views(new) == warning_views(old) + warns
    &&& new.cnt_matched == old.cnt_matched + matched
    &&& new.cnt_scanned == old.cnt_scanned + scanned
    &&& new.cnt_copied == old.cnt_copied + copied
    &&& new.cnt_skipped == old.cnt_skipped + skipped
}

/// An unchanged builder has logged nothing.
pub proof fn lemma_logged_nothing(b: ReportCopyBuilder)
    ensures
        logged(b, b, seq![], seq![], 0, 0, 0, 0),
{
    assert(error_views(b) + seq![] =~= error_views(b));
    assert(warning_views(b) + seq![] =~= warning_views(b));
}

/// An appended error, as a log entry.
pub proof fn lemma_error_logged(old: ReportCopyBuilder, new: ReportCopyBuilder, path: Seq<char>, msg: Seq<char>)
    requires
        error_added(old, new, path, msg),
    ensures
        logged(old, new, seq![(path, msg)], seq![], 0, 0, 0, 0),
{
    assert(error_views(new) =~= error_views(old) + seq![(path, msg)]) by {
        assert(new.errors@ =~= old.errors@.push(new.errors@.last()));
    }
    assert(warning_views(new) =~= warning_views(old) + seq![]);
}

/// An appended warning, as a log entry.
pub proof fn lemma_warning_logged(old: ReportCopyBuilder, new: ReportCopyBuilder, msg: Seq<char>)
    requires
        warning_added(old, new, msg),
    ensures
        logged(old, new, seq![], seq![msg], 0, 0, 0, 0),
{
    assert(warning_views(new) =~= warning_views(old) + seq![msg]) by {
        assert(new.warnings@ =~= old.warnings@.push(new.warnings@.last()));
    }
    assert(error_views(new) =~= error_views(old) + seq![]);
}

/// Moved counters, as a log entry.
pub proof fn lemma_counted_logged(
    old: ReportCopyBuilder,
    new: ReportCopyBuilder,
    matched: int,
    scanned: int,
    copied: int,
    skipped: int,
)
    requires
        counted(old, new, matched, scanned, copied, skipped),
    ensures
        logged(old, new, seq![], seq![], matched, scanned, copied, skipped),
{
    assert(error_views(new) =~= error_views(old) + seq![]);
    assert(warning_views(new) =~= warning_views(old) + seq![]);
}

/// Two logs in a row make one.
pub proof fn lemma_logged_chain(
    a: ReportCopyBuilder,
    b: ReportCopyBuilder,
    c: ReportCopyBuilder,
    e1: Seq<(Seq<char>, Seq<char>)>,
    w1: Seq<Seq<char>>,
    m1: int,
    s1: int,
    c1: int,
    k1: int,
    e2: Seq<(Seq<char>, Seq<char>)>,
    w2: Seq<Seq<char>>,
    m2: int,
    s2: int,
    c2: int,
    k2: int,
)
    requires
        logged(a, b, e1, w1, m1, s1, c1, k1),
        logged(b, c, e2, w2, m2, s2, c2, k2),
    ensures
        logged(a, c, e1 + e2, w1 + w2, m1 + m2, s1 + s2, c1 + c2, k1 + k2),
{
    assert(error_views(a) + e1 + e2 =~= error_views(a) + (e1 + e2));
    assert(warning_views(a) + w1 + w2 =~= warning_views(a) + (w1 + w2));
}

impl ReportCopyBuilder {
    /// A builder with all counters at zero and no diagnostics.
    pub fn new() -> (r: Self)
        ensures
            r.cnt_matched == 0,
            r.cnt_scanned == 0,
            r.cnt_copied == 0,
            r.cnt_skipped == 0,
            r.errors@.len() == 0,
            r.warnings@.len() == 0,
    {
        ReportCopyBuilder {
            cnt_matched: 0,
            cnt_scanned: 0,
            cnt_copied: 0,
            cnt_skipped: 0,
            errors: Vec::new(),
            warnings: Vec::new(),
        }
    }

    /// Increments each named counter by `value` once per time its name
    /// (`cnt_matched`, `cnt_scanned`, `cnt_copied`, `cnt_skipped`) occurs in
    /// `field_names`; other names are ignored.
    pub fn add_counts(&mut self, field_names: &[&str], value: u64)
        requires
            counter_after(old(self).cnt_matched, field_names@, "cnt_matched"@, value) <= u64::MAX,
            counter_after(old(self).cnt_scanned, field_names@, "cnt_scanned"@, value) <= u64::MAX,
            counter_after(old(self).cnt_copied, field_names@, "cnt_copied"@, value) <= u64::MAX,
            counter_after(old(self).cnt_skipped, field_names@, "cnt_skipped"@, value) <= u64::MAX,
        ensures
            final(self).cnt_matched == counter_after(
                old(self).cnt_matched,
                field_names@,
                "cnt_matched"@,
                value,
            ),
            final(self).cnt_scanned == counter_after(
                old(self).cnt_scanned,
                field_names@,
                "cnt_scanned"@,
                value,
            ),
            final(self).cnt_copied == counter_after(
                old(self).cnt_copied,
                field_names@,
                "cnt_copied"@,
                value,
            ),
            final(self).cnt_skipped == counter_after(
                old(self).cnt_skipped,
                field_names@,
                "cnt_skipped"@,
                value,
            ),
            final(self).errors@ == old(self).errors@,
            final(self).warnings@ == old(self).warnings@,
    {
        let ghost names = field_names@;
        let n = field_names.len();
        let mut i: usize = 0;
        proof {
            reveal_strlit("cnt_matched");
            reveal_strlit("cnt_scanned");
            reveal_strlit("cnt_copied");
            reveal_strlit("cnt_skipped");
            assert(names.subrange(0, 0) =~= Seq::<&str>::empty());
            lemma_scaled_zero(value);
        }
        while i < n
            invariant
                n == names.len(),
                names == field_names@,
                i <= n,
                self.cnt_matched == counter_after(old(self).cnt_matched, names.subrange(0, i as int), "cnt_matched"@, value),
                self.cnt_scanned == counter_after(old(self).cnt_scanned, names.subrange(0, i as int), "cnt_scanned"@, value),
                self.cnt_copied == counter_after(old(self).cnt_copied, names.subrange(0, i as int), "cnt_copied"@, value),
                self.cnt_skipped == counter_after(old(self).cnt_skipped, names.subrange(0, i as int), "cnt_skipped"@, value),
                counter_after(old(self).cnt_matched, names, "cnt_matched"@, value) <= u64::MAX,
                counter_after(old(self).cnt_scanned, names, "cnt_scanned"@, value) <= u64::MAX,
                counter_after(old(self).cnt_copied, names, "cnt_copied"@, value) <= u64::MAX,
                counter_after(old(self).cnt_skipped, names, "cnt_skipped"@, value) <= u64::MAX,
                self.errors@ == old(self).errors@,
                self.warnings@ == old(self).warnings@,
            decreases n - i,
        {
            let name = field_names[i];
            let ghost next = names.subrange(0, i + 1);
            assert(next.drop_last() =~= names.subrange(0, i as int));
            assert(next.last() == name);
            proof {
                reveal_strlit("cnt_matched");
                reveal_strlit("cnt_scanned");
                reveal_strlit("cnt_copied");
                reveal_strlit("cnt_skipped");
                assert("cnt_matched"@[4] != "cnt_scanned"@[4]);
                assert("cnt_matched"@[4] != "cnt_copied"@[4]);
                assert("cnt_matched"@[4] != "cnt_skipped"@[4]);
                assert("cnt_scanned"@[5] != "cnt_copied"@[5]);
                assert("cnt_scanned"@[5] != "cnt_skipped"@[5]);
                assert("cnt_copied"@[4] != "cnt_skipped"@[4]);
                lemma_count_step(names, "cnt_matched"@, i as int);
                lemma_count_step(names, "cnt_scanned"@, i as int);
                lemma_count_step(names, "cnt_copied"@, i as int);
                lemma_count_step(names, "cnt_skipped"@, i as int);
                lemma_count_name_prefix(names, "cnt_matched"@, i + 1);
                lemma_count_name_prefix(names, "cnt_scanned"@, i + 1);
                lemma_count_name_prefix(names, "cnt_copied"@, i + 1);
                lemma_count_name_prefix(names, "cnt_skipped"@, i + 1);
                lemma_scaled_step(value, count_name(names.subrange(0, i as int), "cnt_matched"@), count_name(names, "cnt_matched"@));
                lemma_scaled_step(value, count_name(names.subrange(0, i as int), "cnt_scanned"@), count_name(names, "cnt_scanned"@));
                lemma_scaled_step(value, count_name(names.subrange(0, i as int), "cnt_copied"@), count_name(names, "cnt_copied"@));
                lemma_scaled_step(value, count_name(names.subrange(0, i as int), "cnt_skipped"@), count_name(names, "cnt_skipped"@));
            }
            if str_eq(name, "cnt_matched") {
                self.cnt_matched = self.cnt_matched + value;
            } else if str_eq(name, "cnt_scanned") {
                self.cnt_scanned = self.cnt_scanned + value;
            } else if str_eq(name, "cnt_copied") {
                self.cnt_copied = self.cnt_copied + value;
            } else if str_eq(name, "cnt_skipped") {
                self.cnt_skipped = self.cnt_skipped + value;
            }
            i = i + 1;
        }
        assert(names.subrange(0, n as int) =~= names);
    }

    /// Increments the matched count by one.
    pub fn add_matched(&mut self)
        requires
            old(self).cnt_matched < u64::MAX,
        ensures
            *final(self) == (ReportCopyBuilder { cnt_matched: (old(self).cnt_matched + 1) as u64, ..*old(self) }),
    {
        self.cnt_matched = self.cnt_matched + 1;
    }

    /// Increments the scanned count by one.
    pub fn add_scanned(&mut self)
        requires
            old(self).cnt_scanned < u64::MAX,
        ensures
            *final(self) == (ReportCopyBuilder { cnt_scanned: (old(self).cnt_scanned + 1) as u64, ..*old(self) }),
    {
        self.cnt_scanned = self.cnt_scanned + 1;
    }

    /// Increments the copied count by one.
    pub fn add_copied(&mut self)
        requires
            old(self).cnt_copied < u64::MAX,
        ensures
            *final(self) == (ReportCopyBuilder { cnt_copied: (old(self).cnt_copied + 1) as u64, ..*old(self) }),
    {
        self.cnt_copied = self.cnt_copied + 1;
    }

    /// Increments the skipped count by one.
    pub fn add_skipped(&mut self)
        requires
            old(self).cnt_skipped < u64::MAX,
        ensures
            *final(self) == (ReportCopyBuilder { cnt_skipped: (old(self).cnt_skipped + 1) as u64, ..*old(self) }),
    {
        self.cnt_skipped = self.cnt_skipped + 1;
    }

    /// Appends a warning message.
    pub fn add_warning(&mut self, warning: String)
        ensures
            final(self).warnings@ == old(self).warnings@.push(warning),
            warning_added(*old(self), *final(self), warning@),
            final(self).errors == old(self).errors,
            final(self).cnt_matched == old(self).cnt_matched,
            final(self).cnt_scanned == old(self).cnt_scanned,
            final(self).cnt_copied == old(self).cnt_copied,
            final(self).cnt_skipped == old(self).cnt_skipped,
    {
        self.warnings.push(warning);
        assert(self.warnings@.drop_last() =~= old(self).warnings@);
    }

    /// Appends one path-scoped error.
    pub fn add_error(&mut self, path: String, exception: String)
        ensures
            final(self).errors@.len() == old(self).errors@.len() + 1,
            final(self).errors@.drop_last() == old(self).errors@,
            final(self).errors@.last().path == path,
            final(self).errors@.last().exception == exception,
            final(self).warnings == old(self).warnings,
            final(self).cnt_matched == old(self).cnt_matched,
            final(self).cnt_scanned == old(self).cnt_scanned,
            final(self).cnt_copied == old(self).cnt_copied,
            final(self).cnt_skipped == old(self).cnt_skipped,
            error_added(*old(self), *final(self), path@, exception@),
    {
        self.errors.push(SpecCopyError { path, exception });
        assert(self.errors@.drop_last() =~= old(self).errors@);
    }

    /// Finalizes the builder into the immutable report.
    pub fn build(self) -> (r: ReportCopy)
        ensures
            r.cnt_matched == self.cnt_matched,
            r.cnt_scanned == self.cnt_scanned,
            r.cnt_copied == self.cnt_copied,
            r.cnt_skipped == self.cnt_skipped,
            r.errors == self.errors,
            r.warnings == self.warnings,
    {
        ReportCopy {
            cnt_matched: self.cnt_matched,
            cnt_scanned: self.cnt_scanned,
            cnt_copied: self.cnt_copied,
            cnt_skipped: self.cnt_skipped,
            errors: self.errors,
            warnings: self.warnings,
        }
    }
}

} // verus!
