//! Column references of the spreadsheet writer: by name or by index.
use vstd::prelude::*;

use crate::text::{decimal, lemma_seq_lt_total, seq_lt, str_lt, u64_to_decimal};

verus! {

/// The text `format!("{:?}", s)` gives for a string: quoted and escaped.
pub uninterp spec fn debug_quoted(s: Seq<char>) -> Seq<char>;

/// Relies on std's `Debug` for `str`: the quoted, escaped form of the text,
/// which depends on the text alone.
#[verifier::external_body]
fn debug_text(s: &str) -> (r: String)
    ensures
        r@ == debug_quoted(s@),
{
    format!("{s:?}")
}

/// The value of an ASCII decimal digit.
pub open spec fn digit_value(c: char) -> int {
    (c as u32) - ('0' as u32)
}

/// Whether `c` is an ASCII decimal digit.
pub open spec fn is_digit(c: char) -> bool {
    '0' <= c && c <= '9'
}

/// The value of a run of decimal digits.
pub open spec fn digits_value(s: Seq<char>) -> int
    decreases s.len(),
{
    if s.len() == 0 {
        0
    } else {
        digits_value(s.drop_last()) * 10 + digit_value(s.last())
    }
}

/// The text after an optional leading `+`.
pub open spec fn unsigned_part(s: Seq<char>) -> Seq<char> {
    if s.len() > 0 && s[0] == '+' {
        s.drop_first()
    } else {
        s
    }
}

/// Every character is a decimal digit.
pub open spec fn all_digits(d: Seq<char>) -> bool {
    forall|i: int| 0 <= i < d.len() ==> is_digit(#[trigger] d[i])
}

/// What `usize::from_str` accepts: an optional `+`, then one or more
/// decimal digits whose value fits in `usize`.
pub open spec fn parsed_index(s: Seq<char>) -> Option<usize> {
    let d = unsigned_part(s);
    if d.len() > 0 && all_digits(d) && digits_value(d) <= usize::MAX {
        Some(digits_value(d) as usize)
    } else {
        None
    }
}

proof fn lemma_digits_value_nonneg(s: Seq<char>)
    requires
        forall|i: int| 0 <= i < s.len() ==> is_digit(#[trigger] s[i]),
    ensures
        digits_value(s) >= 0,
    decreases s.len(),
{
    if s.len() > 0 {
        lemma_digits_value_nonneg(s.drop_last());
    }
}

proof fn lemma_digits_value_grows(s: Seq<char>, i: int)
    requires
        0 <= i <= s.len(),
        forall|k: int| 0 <= k < s.len() ==> is_digit(#[trigger] s[k]),
    ensures
        digits_value(s.subrange(0, i)) <= digits_value(s),
    decreases s.len(),
{
    if i < s.len() {
        let t = s.drop_last();
        assert(t =~= s.subrange(0, s.len() - 1));
        lemma_digits_value_grows(t, i);
        assert(t.subrange(0, i) =~= s.subrange(0, i));
        lemma_digits_value_nonneg(t);
    } else {
        assert(s.subrange(0, i) =~= s);
    }
}

proof fn lemma_unparsed(s: Seq<char>, d: Seq<char>, w: int)
    requires
        d == unsigned_part(s),
        0 <= w < d.len(),
        !is_digit(d[w]),
    ensures
        parsed_index(s) is None,
{
}

proof fn lemma_too_large(s: Seq<char>, d: Seq<char>)
    requires
        d == unsigned_part(s),
        digits_value(d) > usize::MAX,
    ensures
        parsed_index(s) is None,
{
}

/// Parses a column index as `usize::from_str` does.
pub fn parse_index(s: &str) -> (r: Option<usize>)
    ensures
        r == parsed_index(s@),
{
    let n = s.unicode_len();
    let mut i: usize = 0;
    if n > 0 && s.get_char(0) == '+' {
        i = 1;
    }
    let start = i;
    let ghost d = unsigned_part(s@);
    assert(d =~= s@.subrange(start as int, n as int));
    if start == n {
        return None;
    }
    let mut value: usize = 0;
    assert(d.subrange(0, 0) =~= Seq::<char>::empty());
    while i < n
        invariant
            n == s@.len(),
            start <= i <= n,
            start < n,
            d == s@.subrange(start as int, n as int),
            d == unsigned_part(s@),
            forall|k: int| 0 <= k < i - start ==> is_digit(#[trigger] d[k]),
            value == digits_value(d.subrange(0, i - start)),
        decreases n - i,
    {
        let c = s.get_char(i);
        assert(d[i - start] == c);
        if !('0' <= c && c <= '9') {
            assert(!is_digit(d[i - start]));
            proof {
                lemma_unparsed(s@, d, i - start);
            }
            return None;
        }
        let dv = (c as u32 - '0' as u32) as usize;
        let ghost k1 = i - start + 1;
        let ghost pre1 = d.subrange(0, k1);
        assert(pre1.drop_last() =~= d.subrange(0, i - start));
        assert(pre1.last() == c);
        assert(digits_value(pre1) == value * 10 + dv);
        if value > (usize::MAX - dv) / 10 {
            proof {
                assert(value * 10 + dv > usize::MAX) by (nonlinear_arith)
                    requires
                        value > (usize::MAX - dv) / 10,
                        dv <= 9,
                ;
                if all_digits(d) {
                    lemma_digits_value_grows(d, k1);
                    lemma_too_large(s@, d);
                } else {
                    let w = choose|w: int| 0 <= w < d.len() && !is_digit(#[trigger] d[w]);
                    lemma_unparsed(s@, d, w);
                }
            }
            return None;
        }
        assert(value * 10 + dv <= usize::MAX) by (nonlinear_arith)
            requires
                value <= (usize::MAX - dv) / 10,
                dv <= 9,
        ;
        value = value * 10 + dv;
        i = i + 1;
    }
    assert(d.subrange(0, n - start) =~= d);
    Some(value)
}

/// Where a reference points: its parsed index, else the first column of
/// that name.
pub open spec fn resolved(columns: Seq<String>, reference: Seq<char>) -> Option<usize> {
    match parsed_index(reference) {
        Some(n) => Some(n),
        None => if exists|i: int| 0 <= i < columns.len() && columns[i]@ == reference {
            Some(
                (choose|i: int|
                    0 <= i < columns.len() && columns[i]@ == reference && forall|j: int|
                        0 <= j < i ==> columns[j]@ != reference) as usize,
            )
        } else {
            None
        },
    }
}

fn position_of(columns: &Vec<String>, name: &String) -> (r: Option<usize>)
    ensures
        r is None <==> !(exists|i: int| 0 <= i < columns@.len() && columns@[i]@ == name@),
        r is Some ==> {
            let i = r->0 as int;
            &&& 0 <= i < columns@.len()
            &&& columns@[i]@ == name@
            &&& forall|j: int| 0 <= j < i ==> columns@[j]@ != name@
        },
{
    let mut i: usize = 0;
    while i < columns.len()
        invariant
            i <= columns@.len(),
            forall|j: int| 0 <= j < i ==> columns@[j]@ != name@,
        decreases columns@.len() - i,
    {
        if columns[i] == *name {
            return Some(i);
        }
        i = i + 1;
    }
    None
}

/// Strictly increasing.
pub open spec fn increasing(s: Seq<usize>) -> bool {
    forall|i: int, j: int| 0 <= i < j < s.len() ==> s[i] < s[j]
}

fn insert_unique_sorted(v: &mut Vec<usize>, x: usize)
    requires
        increasing(old(v)@),
    ensures
        increasing(final(v)@),
        forall|y: usize| #[trigger] final(v)@.contains(y) <==> (old(v)@.contains(y) || y == x),
{
    let mut p: usize = 0;
    while p < v.len() && v[p] < x
        invariant
            p <= v@.len(),
            forall|k: int| 0 <= k < p ==> v@[k] < x,
            v@ == old(v)@,
        decreases v@.len() - p,
    {
        p = p + 1;
    }
    if p < v.len() && v[p] == x {
        assert(old(v)@[p as int] == x);
        return;
    }
    let ghost s0 = v@;
    v.insert(p, x);
    assert(increasing(v@)) by {
        assert forall|i: int, j: int| 0 <= i < j < v@.len() implies v@[i] < v@[j] by {
            if j < p {
                assert(v@[i] == s0[i] && v@[j] == s0[j]);
            } else if j == p {
                assert(v@[i] == s0[i]);
            } else if i < p {
                assert(v@[i] == s0[i] && v@[j] == s0[j - 1]);
                assert(s0[p as int] > x || true);
            } else if i == p {
                assert(v@[j] == s0[j - 1]);
                assert(s0[p as int] >= x);
                if j - 1 > p {
                    assert(s0[p as int] < s0[j - 1]);
                }
            } else {
                assert(v@[i] == s0[i - 1] && v@[j] == s0[j - 1]);
            }
        }
    }
    {
        assert forall|y: usize| #[trigger] v@.contains(y) <==> s0.contains(y) || y == x by {
            if v@.contains(y) {
                let k = choose|k: int| 0 <= k < v@.len() && v@[k] == y;
                if k < p {
                    assert(s0[k] == y);
                } else if k > p {
                    assert(s0[k - 1] == y);
                }
            }
            if s0.contains(y) {
                let k = choose|k: int| 0 <= k < s0.len() && s0[k] == y;
                if k < p {
                    assert(v@[k] == y);
                } else {
                    assert(v@[k + 1] == y);
                }
            }
            if y == x {
                assert(v@[p as int] == x);
            }
        }
    }
}

/// Resolves column references (a numeric string is an index, anything else
/// a column name) to sorted, unique indices; no references give none. A name
/// that no column has fails, naming the first such reference.
pub fn select_sorted_indices_from_refs(columns: &Vec<String>, refs: Option<&Vec<String>>) -> (r: Result<Vec<usize>, String>)
    ensures
        refs is None ==> r == Ok::<Vec<usize>, String>(r->Ok_0) && r->Ok_0@.len() == 0,
        refs is Some ==> {
            let rs = refs->0@;
            &&& r is Ok <==> forall|k: int| 0 <= k < rs.len() ==> #[trigger] resolved(columns@, rs[k]@) is Some
            &&& r is Ok ==> increasing(r->Ok_0@) && forall|x: usize| r->Ok_0@.contains(x) <==> exists|k: int|
                0 <= k < rs.len() && #[trigger] resolved(columns@, rs[k]@) == Some(x)
            &&& r is Err ==> exists|k: int|
                0 <= k < rs.len() && #[trigger] resolved(columns@, rs[k]@) is None && (forall|j: int|
                    0 <= j < k ==> resolved(columns@, rs[j]@) is Some) && r->Err_0@ == "Column not found: "@
                    + debug_quoted(rs[k]@)
        },
{
    let list = match refs {
        None => {
            return Ok(Vec::new());
        },
        Some(v) => v,
    };
    let mut out: Vec<usize> = Vec::new();
    let mut i: usize = 0;
    while i < list.len()
        invariant
            refs == Some(list),
            i <= list@.len(),
            increasing(out@),
            forall|k: int| 0 <= k < i ==> #[trigger] resolved(columns@, list@[k]@) is Some,
            forall|x: usize| out@.contains(x) <==> exists|k: int|
                0 <= k < i && #[trigger] resolved(columns@, list@[k]@) == Some(x),
        decreases list@.len() - i,
    {
        let reference = &list[i];
        let idx = match parse_index(reference.as_str()) {
            Some(n) => n,
            None => match position_of(columns, reference) {
                Some(p) => p,
                None => {
                    let mut msg = String::from_str("Column not found: ");
                    msg.append(debug_text(reference.as_str()).as_str());
                    assert(resolved(columns@, list@[i as int]@) is None);
                    return Err(msg);
                },
            },
        };
        assert(resolved(columns@, list@[i as int]@) == Some(idx)) by {
            if parsed_index(list@[i as int]@) is None {
                let w = choose|w: int|
                    0 <= w < columns@.len() && columns@[w]@ == list@[i as int]@ && forall|j: int|
                        0 <= j < w ==> columns@[j]@ != list@[i as int]@;
                assert(w == idx as int) by {
                    if w < idx as int {
                        assert(columns@[w]@ != list@[i as int]@);
                    } else if w > idx as int {
                        assert(columns@[idx as int]@ != list@[i as int]@);
                    }
                }
            }
        }
        let ghost before = out@;
        insert_unique_sorted(&mut out, idx);
        assert forall|x: usize| out@.contains(x) <==> exists|k: int|
            0 <= k < i + 1 && #[trigger] resolved(columns@, list@[k]@) == Some(x) by {
            assert(out@.contains(x) <==> out@.to_set().contains(x));
            assert(before.contains(x) <==> before.to_set().contains(x));
            if x == idx {
                assert(resolved(columns@, list@[i as int]@) == Some(x));
            }
            if exists|k: int| 0 <= k < i + 1 && #[trigger] resolved(columns@, list@[k]@) == Some(x) {
                let k = choose|k: int| 0 <= k < i + 1 && #[trigger] resolved(columns@, list@[k]@) == Some(x);
                if k < i {
                    assert(before.contains(x));
                }
            }
        }
        i = i + 1;
    }
    Ok(out)
}

/// No two columns share a name.
pub open spec fn names_unique(columns: Seq<String>) -> bool {
    forall|i: int, j: int| 0 <= i < j < columns.len() ==> columns[i]@ != columns[j]@
}

fn has_duplicates(columns: &Vec<String>) -> (r: bool)
    ensures
        r == !names_unique(columns@),
{
    let n = columns.len();
    let mut i: usize = 0;
    while i < n
        invariant
            n == columns@.len(),
            i <= n,
            forall|a: int, b: int| 0 <= a < i && a < b < n ==> columns@[a]@ != columns@[b]@,
        decreases n - i,
    {
        let mut j: usize = i + 1;
        while j < n
            invariant
                n == columns@.len(),
                i < n,
                i < j <= n,
                forall|a: int, b: int| 0 <= a < i && a < b < n ==> columns@[a]@ != columns@[b]@,
                forall|b: int| i < b < j ==> columns@[i as int]@ != columns@[b]@,
            decreases n - j,
        {
            if columns[i] == columns[j] {
                return true;
            }
            j = j + 1;
        }
        i = i + 1;
    }
    false
}

/// The positions, in order, of the columns named `name`.
pub open spec fn positions(columns: Seq<String>, name: Seq<char>) -> Seq<usize>
    decreases columns.len(),
{
    if columns.len() == 0 {
        seq![]
    } else {
        positions(columns.drop_last(), name) + if columns.last()@ == name {
            seq![(columns.len() - 1) as usize]
        } else {
            seq![]
        }
    }
}

/// Whether more than one column is named `name`.
pub open spec fn duplicated(columns: Seq<String>, name: Seq<char>) -> bool {
    positions(columns, name).len() > 1
}

/// The indices separated by `, `.
pub open spec fn joined_indices(s: Seq<usize>) -> Seq<char>
    decreases s.len(),
{
    if s.len() == 0 {
        seq![]
    } else if s.len() == 1 {
        decimal(s[0] as nat)
    } else {
        joined_indices(s.drop_last()) + ", "@ + decimal(s.last() as nat)
    }
}

/// `[a, b, ...]`, as `Debug` writes a list of indices.
pub open spec fn index_list(s: Seq<usize>) -> Seq<char> {
    "["@ + joined_indices(s) + "]"@
}

/// How the error names one repeated column name.
pub open spec fn group_text(columns: Seq<String>, name: Seq<char>) -> Seq<char> {
    debug_quoted(name) + " x"@ + decimal(positions(columns, name).len()) + " at indices "@ + index_list(
        positions(columns, name),
    )
}

/// The groups of the given names, separated by `; `.
pub open spec fn groups_text(columns: Seq<String>, names: Seq<Seq<char>>) -> Seq<char>
    decreases names.len(),
{
    if names.len() == 0 {
        seq![]
    } else if names.len() == 1 {
        group_text(columns, names[0])
    } else {
        groups_text(columns, names.drop_last()) + "; "@ + group_text(columns, names.last())
    }
}

/// Names in strictly increasing order.
pub open spec fn names_in_order(names: Seq<Seq<char>>) -> bool {
    forall|i: int| 0 <= i < names.len() - 1 ==> #[trigger] seq_lt(names[i], names[i + 1])
}

fn index_list_text(v: &Vec<usize>) -> (r: String)
    ensures
        r@ == index_list(v@),
{
    let mut out = String::new();
    let mut i: usize = 0;
    assert(v@.subrange(0, 0) =~= Seq::<usize>::empty());
    while i < v.len()
        invariant
            i <= v@.len(),
            out@ == joined_indices(v@.subrange(0, i as int)),
        decreases v@.len() - i,
    {
        let ghost next = v@.subrange(0, i + 1);
        assert(next.drop_last() =~= v@.subrange(0, i as int));
        if i > 0 {
            out.append(", ");
        } else {
            assert(next =~= seq![v@[0]]);
        }
        out.append(u64_to_decimal(v[i] as u64).as_str());
        i = i + 1;
    }
    assert(v@.subrange(0, v@.len() as int) =~= v@);
    let mut r = String::from_str("[");
    r.append(out.as_str());
    r.append("]");
    r
}

fn positions_of(columns: &Vec<String>, name: &String) -> (r: Vec<usize>)
    ensures
        r@ == positions(columns@, name@),
{
    let mut out: Vec<usize> = Vec::new();
    let mut k: usize = 0;
    assert(columns@.subrange(0, 0) =~= Seq::<String>::empty());
    while k < columns.len()
        invariant
            k <= columns@.len(),
            out@ == positions(columns@.subrange(0, k as int), name@),
        decreases columns@.len() - k,
    {
        let ghost next = columns@.subrange(0, k + 1);
        assert(next.drop_last() =~= columns@.subrange(0, k as int));
        if columns[k] == *name {
            out.push(k);
        } else {
            assert(out@ + seq![] =~= out@);
        }
        k = k + 1;
    }
    assert(columns@.subrange(0, columns@.len() as int) =~= columns@);
    out
}

proof fn lemma_positions_occur(columns: Seq<String>, name: Seq<char>)
    ensures
        positions(columns, name).len() > 0 ==> exists|j: int| 0 <= j < columns.len() && columns[j]@ == name,
    decreases columns.len(),
{
    if columns.len() > 0 {
        lemma_positions_occur(columns.drop_last(), name);
        if positions(columns.drop_last(), name).len() > 0 {
            let j = choose|j: int| 0 <= j < columns.drop_last().len() && columns.drop_last()[j]@ == name;
            assert(columns[j] == columns.drop_last()[j]);
        }
    }
}

/// The names of the columns at `firsts`.
pub open spec fn names_at(columns: Seq<String>, firsts: Seq<usize>) -> Seq<Seq<char>> {
    firsts.map_values(|f: usize| columns[f as int]@)
}

/// Checks that no two columns share a name; otherwise the error lists each
/// repeated name once, in name order, with its count and positions.
pub fn validate_unique_columns(columns: &Vec<String>) -> (r: Result<(), String>)
    ensures
        r is Ok <==> names_unique(columns@),
        r is Err ==> exists|names: Seq<Seq<char>>|
            {
                &&& names_in_order(names)
                &&& forall|nm: Seq<char>| #[trigger] names.contains(nm) <==> duplicated(columns@, nm)
                &&& r->Err_0@ == "Duplicate column names detected: "@ + groups_text(columns@, names)
            },
{
    if !has_duplicates(columns) {
        return Ok(());
    }
    let n = columns.len();
    let mut firsts: Vec<usize> = Vec::new();
    let mut i: usize = 0;
    while i < n
        invariant
            n == columns@.len(),
            i <= n,
            forall|k: int| 0 <= k < firsts@.len() ==> #[trigger] firsts@[k] < n,
            names_in_order(names_at(columns@, firsts@)),
            forall|nm: Seq<char>| #[trigger] names_at(columns@, firsts@).contains(nm) <==> ((exists|j: int|
                0 <= j < i && columns@[j]@ == nm) && duplicated(columns@, nm)),
        decreases n - i,
    {
        let first = position_of(columns, &columns[i]);
        let pos = positions_of(columns, &columns[i]);
        let ghost nm = columns@[i as int]@;
        let ghost old_names = names_at(columns@, firsts@);
        if first == Some(i) && pos.len() > 1 {
            assert(!old_names.contains(nm)) by {
                if old_names.contains(nm) {
                    let j = choose|j: int| 0 <= j < i && columns@[j]@ == nm;
                    assert(columns@[j]@ != nm);
                }
            }
            let mut p: usize = 0;
            while p < firsts.len() && !str_lt(columns[i].as_str(), columns[firsts[p]].as_str())
                invariant
                    n == columns@.len(),
                    i < n,
                    p <= firsts@.len(),
                    old_names == names_at(columns@, firsts@),
                    forall|k: int| 0 <= k < firsts@.len() ==> #[trigger] firsts@[k] < n,
                    forall|q: int| 0 <= q < p ==> !seq_lt(nm, #[trigger] old_names[q]),
                    nm == columns@[i as int]@,
                decreases firsts@.len() - p,
            {
                assert(old_names[p as int] == columns@[firsts@[p as int] as int]@);
                p = p + 1;
            }
            let ghost f0 = firsts@;
            firsts.insert(p, i);
            let ghost names = names_at(columns@, firsts@);
            assert(names =~= old_names.insert(p as int, nm));
            proof {
                if p > 0 {
                    assert(old_names[p - 1] != nm);
                    lemma_seq_lt_total(old_names[p - 1], nm);
                }
                if p < old_names.len() {
                    assert(seq_lt(nm, old_names[p as int]));
                }
            }
            assert(names_in_order(names)) by {
                assert forall|q: int| 0 <= q < names.len() - 1 implies #[trigger] seq_lt(names[q], names[q + 1]) by {
                    if q + 1 < p {
                        assert(seq_lt(old_names[q], old_names[q + 1]));
                    } else if q + 1 == p {
                    } else if q == p {
                    } else {
                        let w = q - 1;
                        assert(w + 1 == q);
                        assert(seq_lt(old_names[w], old_names[w + 1]));
                    }
                }
            }
            assert forall|k: int| 0 <= k < firsts@.len() implies #[trigger] firsts@[k] < n by {
                if k < p {
                    assert(firsts@[k] == f0[k]);
                } else if k > p {
                    assert(firsts@[k] == f0[k - 1]);
                }
            }
            assert forall|m: Seq<char>| #[trigger] names.contains(m) <==> ((exists|j: int|
                0 <= j < i + 1 && columns@[j]@ == m) && duplicated(columns@, m)) by {
                if names.contains(m) {
                    let k = choose|k: int| 0 <= k < names.len() && names[k] == m;
                    if k != p {
                        let k0 = if k < p { k } else { k - 1 };
                        assert(old_names[k0] == m);
                        assert(old_names.contains(m));
                    }
                }
                if (exists|j: int| 0 <= j < i + 1 && columns@[j]@ == m) && duplicated(columns@, m) {
                    if m == nm {
                        assert(names[p as int] == m);
                    } else {
                        let j = choose|j: int| 0 <= j < i + 1 && columns@[j]@ == m;
                        assert(j < i);
                        assert(old_names.contains(m));
                        let k = choose|k: int| 0 <= k < old_names.len() && old_names[k] == m;
                        if k < p {
                            assert(names[k] == m);
                        } else {
                            assert(names[k + 1] == m);
                        }
                    }
                }
            }
        } else {
            assert forall|m: Seq<char>| #[trigger] old_names.contains(m) <==> ((exists|j: int|
                0 <= j < i + 1 && columns@[j]@ == m) && duplicated(columns@, m)) by {
                if (exists|j: int| 0 <= j < i + 1 && columns@[j]@ == m) && duplicated(columns@, m) && m == nm {
                    if first != Some(i) {
                        let f = first->0 as int;
                        assert(columns@[f]@ == nm);
                    }
                }
            }
        }
        i = i + 1;
    }
    let ghost names = names_at(columns@, firsts@);
    assert forall|m: Seq<char>| #[trigger] names.contains(m) <==> duplicated(columns@, m) by {
        lemma_positions_occur(columns@, m);
    }
    let mut msg = String::from_str("Duplicate column names detected: ");
    let mut g: usize = 0;
    assert(names.subrange(0, 0) =~= Seq::<Seq<char>>::empty());
    while g < firsts.len()
        invariant
            n == columns@.len(),
            names == names_at(columns@, firsts@),
            forall|k: int| 0 <= k < firsts@.len() ==> #[trigger] firsts@[k] < n,
            g <= firsts@.len(),
            msg@ == "Duplicate column names detected: "@ + groups_text(columns@, names.subrange(0, g as int)),
        decreases firsts@.len() - g,
    {
        let first = firsts[g];
        assert(firsts@[g as int] < n);
        let name = &columns[first];
        let pos = positions_of(columns, name);
        let ghost next = names.subrange(0, g + 1);
        assert(next.drop_last() =~= names.subrange(0, g as int));
        assert(next.last() == name@);
        if g > 0 {
            msg.append("; ");
        } else {
            assert(next =~= seq![name@]);
        }
        msg.append(debug_text(name.as_str()).as_str());
        msg.append(" x");
        msg.append(u64_to_decimal(pos.len() as u64).as_str());
        msg.append(" at indices ");
        msg.append(index_list_text(&pos).as_str());
        g = g + 1;
    }
    assert(names.subrange(0, names.len() as int) =~= names);
    Err(msg)
}

} // verus!
