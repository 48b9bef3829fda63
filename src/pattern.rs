//! Include/exclude pattern lists: compiled once per run, then evaluated on
//! entry base names.
use vstd::prelude::*;

use crate::spec::{CopyTreeError, EnumCopyPatternMode};
use crate::text::{seq_contains, str_contains};

verus! {

#[verifier::external_type_specification]
#[verifier::external_body]
pub struct ExGlobSet(globset::GlobSet);

#[verifier::external_type_specification]
#[verifier::external_body]
pub struct ExRegex(regex::Regex);

/// Whether globset accepts `pattern` as a glob (default options) and
/// builds a matching set from it.
pub uninterp spec fn glob_accepts(pattern: Seq<char>) -> bool;

/// Longest glob, in characters, that is handed to globset. Below it every
/// literal part of a glob stays far under the automaton size that globset's
/// literal matchers build without failing.
pub const N_LEN_GLOB_MAX: usize = 1000000;

/// Whether the glob `pattern` matches the whole of `name`.
pub uninterp spec fn glob_matches(pattern: Seq<char>, name: Seq<char>) -> bool;

/// Whether the regex crate accepts `pattern` as a regular expression.
pub uninterp spec fn regex_accepts(pattern: Seq<char>) -> bool;

/// Whether the regular expression `pattern` matches somewhere in `name`.
pub uninterp spec fn regex_finds(pattern: Seq<char>, name: Seq<char>) -> bool;

/// A glob pattern together with the one-glob set compiled from it.
pub struct CompiledGlob {
    pattern: String,
    set: globset::GlobSet,
}

/// A regular expression together with its compiled form.
pub struct CompiledRegex {
    pattern: String,
    regex: regex::Regex,
}

impl CompiledGlob {
    /// The pattern text this glob set was compiled from.
    pub closed spec fn text(&self) -> Seq<char> {
        self.pattern@
    }
}

impl CompiledRegex {
    /// The pattern text this regex was compiled from.
    pub closed spec fn text(&self) -> Seq<char> {
        self.pattern@
    }
}

/// Relies on globset::Glob::new (syntax check) and GlobSetBuilder::build
/// (compiling a set of that one glob, whose size errors it returns); the
/// error is globset's message. The length bound keeps clear of the
/// `unwrap` on its literal matchers.
#[verifier::external_body]
fn compile_glob(pattern: &String) -> (r: Result<CompiledGlob, String>)
    requires
        pattern@.len() <= N_LEN_GLOB_MAX,
    ensures
        r is Ok <==> glob_accepts(pattern@),
        r is Ok ==> r->Ok_0.text() == pattern@,
{
    match globset::Glob::new(pattern) {
        Ok(glob) => {
            let mut builder = globset::GlobSetBuilder::new();
            builder.add(glob);
            match builder.build() {
                Ok(set) => Ok(CompiledGlob { pattern: pattern.clone(), set }),
                Err(e) => Err(e.to_string()),
            }
        },
        Err(e) => Err(e.to_string()),
    }
}

/// Relies on globset::GlobSet::is_match on the set of the one glob the
/// pattern was compiled to: whether that glob matches the name.
#[verifier::external_body]
fn glob_is_match(glob: &CompiledGlob, name: &str) -> (r: bool)
    ensures
        r == glob_matches(glob.text(), name@),
{
    glob.set.is_match(name)
}

/// Relies on regex::Regex::new (syntax and size check); the error is the
/// regex crate's message.
#[verifier::external_body]
fn compile_regex(pattern: &String) -> (r: Result<CompiledRegex, String>)
    ensures
        r is Ok <==> regex_accepts(pattern@),
        r is Ok ==> r->Ok_0.text() == pattern@,
{
    match regex::Regex::new(pattern) {
        Ok(regex) => Ok(CompiledRegex { pattern: pattern.clone(), regex }),
        Err(e) => Err(e.to_string()),
    }
}

/// Relies on regex::Regex::is_match: a match anywhere in the name.
#[verifier::external_body]
fn regex_is_match(regex: &CompiledRegex, name: &str) -> (r: bool)
    ensures
        r == regex_finds(regex.text(), name@),
{
    regex.regex.is_match(name)
}

/// One compiled pattern list; all its patterns share one mode.
pub enum TypeCopyPatternSeq {
    Literal(Vec<String>),
    Glob(Vec<CompiledGlob>),
    Regex(Vec<CompiledRegex>),
}

impl TypeCopyPatternSeq {
    /// The mode the list was compiled under.
    pub open spec fn mode(&self) -> EnumCopyPatternMode {
        match self {
            TypeCopyPatternSeq::Literal(_) => EnumCopyPatternMode::Literal,
            TypeCopyPatternSeq::Glob(_) => EnumCopyPatternMode::Glob,
            TypeCopyPatternSeq::Regex(_) => EnumCopyPatternMode::Regex,
        }
    }

    /// The pattern texts, in order.
    pub open spec fn texts(&self) -> Seq<Seq<char>> {
        match self {
            TypeCopyPatternSeq::Literal(v) => v@.map_values(|p: String| p@),
            TypeCopyPatternSeq::Glob(v) => v@.map_values(|p: CompiledGlob| p.text()),
            TypeCopyPatternSeq::Regex(v) => v@.map_values(|p: CompiledRegex| p.text()),
        }
    }
}

/// A borrowed view of an optional compiled list.
pub open spec fn compiled_ref(o: &Option<TypeCopyPatternSeq>) -> Option<&TypeCopyPatternSeq> {
    match o {
        Some(l) => Some(l),
        None => None,
    }
}

/// Whether one pattern of the given mode matches `name`.
pub open spec fn pattern_hits(mode: EnumCopyPatternMode, pattern: Seq<char>, name: Seq<char>) -> bool {
    match mode {
        EnumCopyPatternMode::Literal => seq_contains(name, pattern),
        EnumCopyPatternMode::Glob => glob_matches(pattern, name),
        EnumCopyPatternMode::Regex => regex_finds(pattern, name),
    }
}

/// Whether some pattern of the list matches `name`, when the list was
/// compiled under `mode` (a list of another mode matches nothing).
pub open spec fn list_hits(
    list: Option<&TypeCopyPatternSeq>,
    mode: EnumCopyPatternMode,
    name: Seq<char>,
) -> bool {
    match list {
        None => false,
        Some(l) => l.mode() == mode && exists|i: int|
            0 <= i < l.texts().len() && pattern_hits(mode, #[trigger] l.texts()[i], name),
    }
}

/// Whether `name` passes the include list: no list, or some pattern matches.
pub open spec fn included(
    list: Option<&TypeCopyPatternSeq>,
    mode: EnumCopyPatternMode,
    name: Seq<char>,
) -> bool {
    list is None || list_hits(list, mode, name)
}

/// Whether `name` is excluded: it fails the include list or matches the
/// exclude list.
pub open spec fn excluded(
    incl: Option<&TypeCopyPatternSeq>,
    excl: Option<&TypeCopyPatternSeq>,
    mode: EnumCopyPatternMode,
    name: Seq<char>,
) -> bool {
    !included(incl, mode, name) || list_hits(excl, mode, name)
}

fn is_pattern_matching(
    value: &str,
    patterns: Option<&TypeCopyPatternSeq>,
    rule_pattern: EnumCopyPatternMode,
) -> (r: bool)
    ensures
        r == list_hits(patterns, rule_pattern, value@),
{
    match patterns {
        None => false,
        Some(TypeCopyPatternSeq::Literal(v)) => {
            if rule_pattern != EnumCopyPatternMode::Literal {
                return false;
            }
            let mut i: usize = 0;
            while i < v.len()
                invariant
                    patterns == Some(&TypeCopyPatternSeq::Literal(*v)),
                    rule_pattern == EnumCopyPatternMode::Literal,
                    i <= v@.len(),
                    forall|j: int| 0 <= j < i ==> !seq_contains(value@, #[trigger] v@[j]@),
                decreases v@.len() - i,
            {
                if str_contains(value, v[i].as_str()) {
                    assert(pattern_hits(rule_pattern, patterns.unwrap().texts()[i as int], value@));
                    return true;
                }
                i = i + 1;
            }
            false
        },
        Some(TypeCopyPatternSeq::Glob(v)) => {
            if rule_pattern != EnumCopyPatternMode::Glob {
                return false;
            }
            let mut i: usize = 0;
            while i < v.len()
                invariant
                    patterns == Some(&TypeCopyPatternSeq::Glob(*v)),
                    rule_pattern == EnumCopyPatternMode::Glob,
                    i <= v@.len(),
                    forall|j: int| 0 <= j < i ==> !glob_matches(#[trigger] v@[j].text(), value@),
                decreases v@.len() - i,
            {
                if glob_is_match(&v[i], value) {
                    assert(pattern_hits(rule_pattern, patterns.unwrap().texts()[i as int], value@));
                    return true;
                }
                i = i + 1;
            }
            false
        },
        Some(TypeCopyPatternSeq::Regex(v)) => {
            if rule_pattern != EnumCopyPatternMode::Regex {
                return false;
            }
            let mut i: usize = 0;
            while i < v.len()
                invariant
                    patterns == Some(&TypeCopyPatternSeq::Regex(*v)),
                    rule_pattern == EnumCopyPatternMode::Regex,
                    i <= v@.len(),
                    forall|j: int| 0 <= j < i ==> !regex_finds(#[trigger] v@[j].text(), value@),
                decreases v@.len() - i,
            {
                if regex_is_match(&v[i], value) {
                    assert(pattern_hits(rule_pattern, patterns.unwrap().texts()[i as int], value@));
                    return true;
                }
                i = i + 1;
            }
            false
        },
    }
}

fn should_include(
    value: &str,
    patterns: Option<&TypeCopyPatternSeq>,
    rule_pattern: EnumCopyPatternMode,
) -> (r: bool)
    ensures
        r == included(patterns, rule_pattern, value@),
{
    match patterns {
        None => true,
        Some(_) => is_pattern_matching(value, patterns, rule_pattern),
    }
}

fn should_exclude(
    value: &str,
    patterns: Option<&TypeCopyPatternSeq>,
    rule_pattern: EnumCopyPatternMode,
) -> (r: bool)
    ensures
        r == list_hits(patterns, rule_pattern, value@),
{
    match patterns {
        None => false,
        Some(_) => is_pattern_matching(value, patterns, rule_pattern),
    }
}

/// Whether an entry named `value` is filtered out: it fails the include list
/// or matches the exclude list.
pub fn should_exclude_by_patterns(
    value: &str,
    patterns_include: Option<&TypeCopyPatternSeq>,
    patterns_exclude: Option<&TypeCopyPatternSeq>,
    rule_pattern: EnumCopyPatternMode,
) -> (r: bool)
    ensures
        r == excluded(patterns_include, patterns_exclude, rule_pattern, value@),
{
    !should_include(value, patterns_include, rule_pattern) || should_exclude(
        value,
        patterns_exclude,
        rule_pattern,
    )
}

/// Whether the library that a mode relies on accepts `pattern`.
pub open spec fn pattern_accepted(mode: EnumCopyPatternMode, pattern: Seq<char>) -> bool {
    match mode {
        EnumCopyPatternMode::Literal => true,
        EnumCopyPatternMode::Glob => pattern.len() <= N_LEN_GLOB_MAX && glob_accepts(pattern),
        EnumCopyPatternMode::Regex => regex_accepts(pattern),
    }
}

/// The texts of a list of strings.
pub open spec fn texts_of(v: Seq<String>) -> Seq<Seq<char>> {
    v.map_values(|p: String| p@)
}

/// Every pattern of the raw list compiles under `mode`.
pub open spec fn raw_list_valid(patterns: Option<&Vec<String>>, mode: EnumCopyPatternMode) -> bool {
    patterns is Some ==> forall|i: int|
        0 <= i < patterns->0@.len() ==> #[trigger] pattern_accepted(mode, patterns->0@[i]@)
}

proof fn lemma_invalid_at(patterns: Option<&Vec<String>>, mode: EnumCopyPatternMode, i: int)
    requires
        patterns is Some,
        0 <= i < patterns->0@.len(),
        !pattern_accepted(mode, patterns->0@[i]@),
    ensures
        !raw_list_valid(patterns, mode),
{
}

/// What compiling a raw list yields when it succeeds: no list for an absent
/// or empty one, else a list of `mode` with the same texts.
pub open spec fn compiled_as(
    r: Option<TypeCopyPatternSeq>,
    patterns: Option<&Vec<String>>,
    mode: EnumCopyPatternMode,
) -> bool {
    match patterns {
        None => r is None,
        Some(v) => if v@.len() == 0 {
            r is None
        } else {
            r is Some && r->0.mode() == mode && r->0.texts() == texts_of(v@)
        },
    }
}

fn invalid_pattern(detail: String) -> (r: CopyTreeError)
    ensures
        r is InvalidPattern,
{
    let mut msg = String::from_str("Invalid pattern in include/exclude: ");
    msg.append(detail.as_str());
    CopyTreeError::InvalidPattern(msg)
}

/// Compiles one raw pattern list under `rule_pattern`.
pub fn compile_patterns(
    patterns: Option<&Vec<String>>,
    rule_pattern: EnumCopyPatternMode,
) -> (r: Result<Option<TypeCopyPatternSeq>, CopyTreeError>)
    ensures
        r is Ok <==> raw_list_valid(patterns, rule_pattern),
        r is Ok ==> compiled_as(r->Ok_0, patterns, rule_pattern),
        r is Err ==> r->Err_0 is InvalidPattern,
{
    let v = match patterns {
        None => {
            return Ok(None);
        },
        Some(v) => v,
    };
    if v.len() == 0 {
        return Ok(None);
    }
    match rule_pattern {
        EnumCopyPatternMode::Literal => {
            let mut out: Vec<String> = Vec::new();
            let mut i: usize = 0;
            while i < v.len()
                invariant
                    i <= v@.len(),
                    out@.len() == i,
                    forall|j: int| 0 <= j < i ==> (#[trigger] out@[j])@ == v@[j]@,
                decreases v@.len() - i,
            {
                out.push(v[i].clone());
                i = i + 1;
            }
            let r = TypeCopyPatternSeq::Literal(out);
            assert(r.texts() =~= texts_of(v@));
            Ok(Some(r))
        },
        EnumCopyPatternMode::Glob => {
            let mut out: Vec<CompiledGlob> = Vec::new();
            let mut i: usize = 0;
            while i < v.len()
                invariant
                    i <= v@.len(),
                    out@.len() == i,
                    forall|j: int| 0 <= j < i ==> (#[trigger] out@[j]).text() == v@[j]@,
                    forall|j: int| 0 <= j < i ==> #[trigger] pattern_accepted(rule_pattern, v@[j]@),
                    patterns == Some(v),
                    rule_pattern == EnumCopyPatternMode::Glob,
                decreases v@.len() - i,
            {
                if v[i].as_str().unicode_len() > N_LEN_GLOB_MAX {
                    proof {
                        lemma_invalid_at(patterns, rule_pattern, i as int);
                    }
                    return Err(invalid_pattern(String::from_str("glob too long")));
                }
                match compile_glob(&v[i]) {
                    Ok(g) => out.push(g),
                    Err(e) => {
                        proof {
                            lemma_invalid_at(patterns, rule_pattern, i as int);
                        }
                        return Err(invalid_pattern(e));
                    },
                }
                i = i + 1;
            }
            let r = TypeCopyPatternSeq::Glob(out);
            assert(r.texts() =~= texts_of(v@));
            Ok(Some(r))
        },
        EnumCopyPatternMode::Regex => {
            let mut out: Vec<CompiledRegex> = Vec::new();
            let mut i: usize = 0;
            while i < v.len()
                invariant
                    i <= v@.len(),
                    out@.len() == i,
                    forall|j: int| 0 <= j < i ==> (#[trigger] out@[j]).text() == v@[j]@,
                    forall|j: int| 0 <= j < i ==> regex_accepts(#[trigger] v@[j]@),
                    patterns == Some(v),
                    rule_pattern == EnumCopyPatternMode::Regex,
                decreases v@.len() - i,
            {
                match compile_regex(&v[i]) {
                    Ok(g) => out.push(g),
                    Err(e) => {
                        proof {
                            lemma_invalid_at(patterns, rule_pattern, i as int);
                        }
                        return Err(invalid_pattern(e));
                    },
                }
                i = i + 1;
            }
            let r = TypeCopyPatternSeq::Regex(out);
            assert(r.texts() =~= texts_of(v@));
            Ok(Some(r))
        },
    }
}

/// The four compiled pattern lists of a run.
pub struct SpecCopyPatterns {
    pub patterns_include_files: Option<TypeCopyPatternSeq>,
    pub patterns_exclude_files: Option<TypeCopyPatternSeq>,
    pub patterns_include_dirs: Option<TypeCopyPatternSeq>,
    pub patterns_exclude_dirs: Option<TypeCopyPatternSeq>,
}

impl SpecCopyPatterns {
    /// Compiles the four raw lists under one mode; the first invalid pattern
    /// fails the whole run.
    pub fn from_raw(
        patterns_include_files: Option<&Vec<String>>,
        patterns_exclude_files: Option<&Vec<String>>,
        patterns_include_dirs: Option<&Vec<String>>,
        patterns_exclude_dirs: Option<&Vec<String>>,
        rule_pattern: EnumCopyPatternMode,
    ) -> (r: Result<Self, CopyTreeError>)
        ensures
            r is Ok <==> {
                &&& raw_list_valid(patterns_include_files, rule_pattern)
                &&& raw_list_valid(patterns_exclude_files, rule_pattern)
                &&& raw_list_valid(patterns_include_dirs, rule_pattern)
                &&& raw_list_valid(patterns_exclude_dirs, rule_pattern)
            },
            r is Ok ==> {
                &&& compiled_as(r->Ok_0.patterns_include_files, patterns_include_files, rule_pattern)
                &&& compiled_as(r->Ok_0.patterns_exclude_files, patterns_exclude_files, rule_pattern)
                &&& compiled_as(r->Ok_0.patterns_include_dirs, patterns_include_dirs, rule_pattern)
                &&& compiled_as(r->Ok_0.patterns_exclude_dirs, patterns_exclude_dirs, rule_pattern)
            },
            r is Err ==> r->Err_0 is InvalidPattern,
    {
        let a = compile_patterns(patterns_include_files, rule_pattern)?;
        let b = compile_patterns(patterns_exclude_files, rule_pattern)?;
        let c = compile_patterns(patterns_include_dirs, rule_pattern)?;
        let d = compile_patterns(patterns_exclude_dirs, rule_pattern)?;
        Ok(
            SpecCopyPatterns {
                patterns_include_files: a,
                patterns_exclude_files: b,
                patterns_include_dirs: c,
                patterns_exclude_dirs: d,
            },
        )
    }
}

} // verus!
