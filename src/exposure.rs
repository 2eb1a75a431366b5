//! What a module exposes, read from its header, and which candidate test
//! names that leaves.

use vstd::prelude::*;
use crate::header::{scan_all, scan_lines, Phase, ScanState};
use crate::text::{copy_range, is_upper_case, string_of, trim, trim_chars, upper_case};

verus! {

#[verifier::external_type_specification]
#[verifier::external_body]
pub struct ExPathBuf(std::path::PathBuf);

#[verifier::external_type_specification]
#[verifier::external_body]
pub struct ExIoError(std::io::Error);

/// The wildcard that exposes everything: `..`.
pub open spec fn wildcard() -> Seq<char> {
    seq!['.', '.']
}

/// The annotation that exposes a type with all its constructors: `(..)`.
pub open spec fn type_wildcard() -> Seq<char> {
    seq!['(', '.', '.', ')']
}

/// The pieces of `t` between commas, in order; there is always at least one.
pub open spec fn pieces(t: Seq<char>) -> Seq<Seq<char>>
    decreases t.len(),
{
    if t.len() == 0 {
        seq![Seq::empty()]
    } else {
        let ps = pieces(t.drop_last());
        if t.last() == ',' {
            ps.push(Seq::empty())
        } else {
            ps.update(ps.len() - 1, ps.last().push(t.last()))
        }
    }
}

/// Whether an exposed item `n` names a value: it is not empty, does not
/// start with an upper-case letter, and carries no `(..)` annotation.
pub open spec fn value_name(n: Seq<char>) -> bool {
    &&& n.len() > 0
    &&& !upper_case(n[0])
    &&& !(n.len() >= 4 && n.subrange(n.len() - 4, n.len() as int) == type_wildcard())
}

/// The value names among the trimmed pieces `ps`.
pub open spec fn names_in(ps: Seq<Seq<char>>) -> Set<Seq<char>>
    decreases ps.len(),
{
    if ps.len() == 0 {
        Set::empty()
    } else if value_name(trim(ps.last())) {
        names_in(ps.drop_last()).insert(trim(ps.last()))
    } else {
        names_in(ps.drop_last())
    }
}

/// What an exposing clause exposes.
pub enum Exports {
    All,
    Names(Set<Seq<char>>),
}

/// What the exposing clause with the text `text` (between its parentheses) exposes.
pub open spec fn exports_of(text: Seq<char>) -> Exports {
    if trim(text) == wildcard() {
        Exports::All
    } else {
        Exports::Names(names_in(pieces(text)))
    }
}

/// What the module with the source lines `lines` exposes, if its header
/// could be read.
pub open spec fn exports_of_lines(lines: Seq<Seq<char>>) -> Option<Exports> {
    match scan_lines(lines).phase {
        Phase::Done { text } => Some(exports_of(text)),
        _ => None,
    }
}

/// What a module exposes: everything, or the listed value names.
pub enum Exposure {
    Wildcard,
    Enumerated(Vec<String>),
}

impl View for Exposure {
    type V = Exports;

    open spec fn view(&self) -> Exports {
        match self {
            Exposure::Wildcard => Exports::All,
            Exposure::Enumerated(names) => Exports::Names(names.deep_view().to_set()),
        }
    }
}

impl Exposure {
    /// Listed names are held once each.
    pub open spec fn wf(&self) -> bool {
        match self {
            Exposure::Wildcard => true,
            Exposure::Enumerated(names) => names.deep_view().no_duplicates(),
        }
    }
}

/// What can go wrong when checking a module's exposed tests.
#[derive(Debug)]
pub enum Problem {
    /// The module (by name) does not expose these candidate tests.
    UnexposedTests(String, Vec<String>),
    /// The file's first content is not a module header.
    MissingModuleDeclaration(std::path::PathBuf),
    OpenFileToReadExports(std::path::PathBuf, std::io::Error),
    ReadingFileForExports(std::path::PathBuf, std::io::Error),
    /// The input ended before the exposing clause was closed.
    ParseError(std::path::PathBuf),
}

/// Whether `names` holds a string equal to `s`.
fn holds_name(names: &Vec<String>, s: &String) -> (r: bool)
    ensures
        r == names.deep_view().contains(s@),
{
    let mut j: usize = 0;
    while j < names.len()
        invariant
            j <= names@.len(),
            forall|k: int| 0 <= k < j ==> names.deep_view()[k] != s@,
        decreases names@.len() - j,
    {
        if names[j] == *s {
            assert(names.deep_view()[j as int] == s@);
            return true;
        }
        j = j + 1;
    }
    false
}

/// Adds the trimmed piece `piece` to `names` when it is a value name not held yet.
fn add_piece(names: &mut Vec<String>, piece: &Vec<char>)
    requires
        old(names).deep_view().no_duplicates(),
    ensures
        final(names).deep_view().no_duplicates(),
        final(names).deep_view().to_set() == if value_name(trim(piece@)) {
            old(names).deep_view().to_set().insert(trim(piece@))
        } else {
            old(names).deep_view().to_set()
        },
{
    let t = trim_chars(piece);
    let n = t.len();
    if n == 0 || is_upper_case(t[0]) {
        return;
    }
    if n >= 4 {
        let tail = copy_range(&t, n - 4, n);
        if tail[0] == '(' && tail[1] == '.' && tail[2] == '.' && tail[3] == ')' {
            assert(tail@ =~= type_wildcard());
            return;
        }
        assert(tail@ != type_wildcard()) by {
            if tail@ == type_wildcard() {
                assert(tail@[0] == '(' && tail@[1] == '.' && tail@[2] == '.' && tail@[3] == ')');
            }
        }
    }
    let s = string_of(&t);
    if holds_name(names, &s) {
        assert(names.deep_view().to_set().insert(s@) =~= names.deep_view().to_set());
        return;
    }
    let ghost before = names.deep_view();
    names.push(s);
    assert(names.deep_view() =~= before.push(s@));
    proof {
        before.lemma_push_to_set_commute(s@);
    }
}

/// What the exposing clause with the text `text` exposes, with each listed
/// name held once.
pub fn exposure_of_clause(text: &Vec<char>) -> (r: Exposure)
    ensures
        r.wf(),
        r@ == exports_of(text@),
{
    let whole = trim_chars(text);
    if whole.len() == 2 && whole[0] == '.' && whole[1] == '.' {
        assert(whole@ =~= wildcard());
        return Exposure::Wildcard;
    }
    assert(whole@ != wildcard()) by {
        if whole@ == wildcard() {
            assert(whole@[0] == '.' && whole@[1] == '.');
        }
    }
    let mut names: Vec<String> = Vec::new();
    let mut cur: Vec<char> = Vec::new();
    let mut i: usize = 0;
    assert(text@.take(0) =~= Seq::<char>::empty());
    while i < text.len()
        invariant
            i <= text@.len(),
            pieces(text@.take(i as int)).len() >= 1,
            cur@ == pieces(text@.take(i as int)).last(),
            names.deep_view().no_duplicates(),
            names.deep_view().to_set() == names_in(pieces(text@.take(i as int)).drop_last()),
        decreases text@.len() - i,
    {
        let ghost ps = pieces(text@.take(i as int));
        let c = text[i];
        i = i + 1;
        assert(text@.take(i as int).drop_last() =~= text@.take(i - 1));
        if c == ',' {
            add_piece(&mut names, &cur);
            cur = Vec::new();
            let ghost qs = pieces(text@.take(i as int));
            assert(qs.drop_last() =~= ps);
        } else {
            cur.push(c);
            let ghost qs = pieces(text@.take(i as int));
            assert(qs.drop_last() =~= ps.drop_last());
        }
    }
    assert(text@.take(i as int) =~= text@);
    add_piece(&mut names, &cur);
    Exposure::Enumerated(names)
}

/// What the module with the source lines `lines` exposes. Fails when content
/// comes before any module header, or when the lines end before the exposing
/// clause is closed; `path` names the file in the error.
pub fn read_exposing(path: std::path::PathBuf, lines: &Vec<String>) -> (r: Result<Exposure, Problem>)
    ensures
        match scan_lines(lines.deep_view()).phase {
            Phase::Done { text } => r is Ok && r->Ok_0.wf() && r->Ok_0@ == exports_of(text),
            Phase::MissingModule => r == Err::<Exposure, Problem>(
                Problem::MissingModuleDeclaration(path),
            ),
            _ => r == Err::<Exposure, Problem>(Problem::ParseError(path)),
        },
{
    let scanner = scan_all(lines);
    match scanner.into_state() {
        ScanState::Done { text } => Ok(exposure_of_clause(&text)),
        ScanState::MissingModuleDeclaration => Err(Problem::MissingModuleDeclaration(path)),
        _ => Err(Problem::ParseError(path)),
    }
}

/// The candidates in `tests` that `ex` exposes, in their order.
pub open spec fn accepted_names(ex: Exports, tests: Seq<Seq<char>>) -> Seq<Seq<char>> {
    match ex {
        Exports::All => tests,
        Exports::Names(e) => tests.filter(|t: Seq<char>| e.contains(t)),
    }
}

/// The candidates in `tests` that `ex` does not expose, in their order.
pub open spec fn unexposed_names(ex: Exports, tests: Seq<Seq<char>>) -> Seq<Seq<char>> {
    match ex {
        Exports::All => Seq::empty(),
        Exports::Names(e) => tests.filter(|t: Seq<char>| !e.contains(t)),
    }
}

/// Whether `r` reports the candidates `tests` of the module named `module`
/// against what it exposes, `ex`: the accepted names when every candidate is
/// exposed, else the candidates that are not.
pub open spec fn reconciled(
    r: Result<(String, Vec<String>), Problem>,
    ex: Exports,
    tests: Seq<Seq<char>>,
    module: Seq<char>,
) -> bool {
    if unexposed_names(ex, tests).len() == 0 {
        &&& r is Ok
        &&& r->Ok_0.0@ == module
        &&& r->Ok_0.1.deep_view() == accepted_names(ex, tests)
    } else {
        &&& r is Err
        &&& r->Err_0 is UnexposedTests
        &&& r->Err_0->UnexposedTests_0@ == module
        &&& r->Err_0->UnexposedTests_1.deep_view() == unexposed_names(ex, tests)
    }
}

/// Splits `tests` into the names that `exposure` exposes and those it does
/// not, and reports them for the module named `module_name`.
pub fn reconcile(exposure: &Exposure, tests: &Vec<String>, module_name: &str) -> (r: Result<
    (String, Vec<String>),
    Problem,
>)
    ensures
        reconciled(r, exposure@, tests.deep_view(), module_name@),
{
    let mut accepted: Vec<String> = Vec::new();
    let mut missing: Vec<String> = Vec::new();
    let mut i: usize = 0;
    while i < tests.len()
        invariant
            i <= tests@.len(),
            accepted.deep_view() == accepted_names(exposure@, tests.deep_view().take(i as int)),
            missing.deep_view() == unexposed_names(exposure@, tests.deep_view().take(i as int)),
        decreases tests@.len() - i,
    {
        let ghost before = tests.deep_view().take(i as int);
        let keep = match exposure {
            Exposure::Wildcard => true,
            Exposure::Enumerated(names) => holds_name(names, &tests[i]),
        };
        let ghost acc0 = accepted.deep_view();
        let ghost mis0 = missing.deep_view();
        if keep {
            accepted.push(tests[i].clone());
            assert(accepted.deep_view() =~= acc0.push(tests.deep_view()[i as int]));
        } else {
            missing.push(tests[i].clone());
            assert(missing.deep_view() =~= mis0.push(tests.deep_view()[i as int]));
        }
        i = i + 1;
        let ghost now = tests.deep_view().take(i as int);
        assert(now.drop_last() =~= before);
        assert(now =~= before.push(tests.deep_view()[i - 1]));
        assert(now.last() == tests.deep_view()[i - 1]);
        proof {
            match exposure@ {
                Exports::All => {
                    assert(accepted.deep_view() =~= now);
                    assert(missing.deep_view() =~= Seq::<Seq<char>>::empty());
                },
                Exports::Names(e) => {
                    reveal(Seq::filter);
                },
            }
        }
    }
    assert(tests.deep_view().take(i as int) =~= tests.deep_view());
    if missing.len() > 0 {
        Err(Problem::UnexposedTests(module_name.to_owned(), missing))
    } else {
        Ok((module_name.to_owned(), accepted))
    }
}

/// Whether `r` is the report on the candidates `tests` of the module named
/// `module`, with the source lines `lines` read from `path`.
pub open spec fn filtered(
    r: Result<(String, Vec<String>), Problem>,
    path: std::path::PathBuf,
    lines: Seq<Seq<char>>,
    tests: Seq<Seq<char>>,
    module: Seq<char>,
) -> bool {
    match exports_of_lines(lines) {
        Some(ex) => reconciled(r, ex, tests, module),
        None => if scan_lines(lines).phase is MissingModule {
            r == Err::<(String, Vec<String>), Problem>(Problem::MissingModuleDeclaration(path))
        } else {
            r == Err::<(String, Vec<String>), Problem>(Problem::ParseError(path))
        },
    }
}

/// Which of the candidate test names `tests` the module with the source lines
/// `lines`, named `module_name` and read from `path`, exposes. Succeeds with
/// the name and the exposed candidates when it exposes all of them; else
/// names those it leaves out, or says why its header could not be read.
pub fn filter_exposing(
    path: std::path::PathBuf,
    lines: &Vec<String>,
    tests: &Vec<String>,
    module_name: &str,
) -> (r: Result<(String, Vec<String>), Problem>)
    ensures
        filtered(r, path, lines.deep_view(), tests.deep_view(), module_name@),
{
    match read_exposing(path, lines) {
        Ok(exposure) => reconcile(&exposure, tests, module_name),
        Err(problem) => Err(problem),
    }
}

proof fn lemma_filter_member(s: Seq<Seq<char>>, p: spec_fn(Seq<char>) -> bool, x: Seq<char>)
    ensures
        s.filter(p).contains(x) <==> s.contains(x) && p(x),
    decreases s.len(),
{
    reveal(Seq::filter);
    if s.len() > 0 {
        lemma_filter_member(s.drop_last(), p, x);
        let sub = s.drop_last().filter(p);
        if s.drop_last().contains(x) {
            let k = choose|k: int| 0 <= k < s.drop_last().len() && s.drop_last()[k] == x;
            assert(s[k] == x);
        }
        if s.contains(x) && x != s.last() {
            let k = choose|k: int| 0 <= k < s.len() && s[k] == x;
            assert(s.drop_last()[k] == x);
        }
        if p(s.last()) {
            assert(s.filter(p) == sub.push(s.last()));
            assert(s.filter(p)[sub.len() as int] == s.last());
            if sub.contains(x) {
                let k = choose|k: int| 0 <= k < sub.len() && sub[k] == x;
                assert(s.filter(p)[k] == x);
            }
            if s.filter(p).contains(x) && x != s.last() {
                let k = choose|k: int| 0 <= k < s.filter(p).len() && s.filter(p)[k] == x;
                assert(sub[k] == x);
            }
        }
        assert(s[s.len() - 1] == s.last());
    }
}

proof fn lemma_filter_distinct(s: Seq<Seq<char>>, p: spec_fn(Seq<char>) -> bool)
    requires
        s.no_duplicates(),
    ensures
        s.filter(p).no_duplicates(),
    decreases s.len(),
{
    reveal(Seq::filter);
    if s.len() > 0 {
        let init = s.drop_last();
        assert(init.no_duplicates()) by {
            assert forall|i: int, j: int| 0 <= i < j < init.len() implies init[i] != init[j] by {
                assert(init[i] == s[i] && init[j] == s[j]);
            }
        }
        lemma_filter_distinct(init, p);
        let sub = init.filter(p);
        if p(s.last()) {
            lemma_filter_member(init, p, s.last());
            assert(!init.contains(s.last())) by {
                if init.contains(s.last()) {
                    let k = choose|k: int| 0 <= k < init.len() && init[k] == s.last();
                    assert(s[k] == s[s.len() - 1]);
                }
            }
            let out = sub.push(s.last());
            assert forall|i: int, j: int| 0 <= i < j < out.len() implies out[i] != out[j] by {
                if j == out.len() - 1 {
                    assert(out[i] == sub[i]);
                    assert(sub.contains(sub[i]));
                } else {
                    assert(out[i] == sub[i] && out[j] == sub[j]);
                }
            }
        }
    }
}

/// Candidates listed once each give accepted and left-out names listed once
/// each.
pub proof fn lemma_distinct_candidates_stay_distinct(ex: Exports, tests: Seq<Seq<char>>)
    requires
        tests.no_duplicates(),
    ensures
        accepted_names(ex, tests).no_duplicates(),
        unexposed_names(ex, tests).no_duplicates(),
{
    match ex {
        Exports::All => {},
        Exports::Names(e) => {
            lemma_filter_distinct(tests, |t: Seq<char>| e.contains(t));
            lemma_filter_distinct(tests, |t: Seq<char>| !e.contains(t));
        },
    }
}

/// For a module that exposes everything, `filter_exposing` keeps every
/// candidate, whatever they are: it succeeds with the candidates unchanged.
pub proof fn lemma_wildcard_keeps_all(
    r: Result<(String, Vec<String>), Problem>,
    path: std::path::PathBuf,
    lines: Seq<Seq<char>>,
    tests: Seq<Seq<char>>,
    module: Seq<char>,
)
    requires
        exports_of_lines(lines) == Some(Exports::All),
        filtered(r, path, lines, tests, module),
    ensures
        r is Ok,
        r->Ok_0.0@ == module,
        r->Ok_0.1.deep_view() == tests,
{
}

/// For a module with a list of exposed names `e`, `filter_exposing` accepts
/// exactly the candidates that it lists, `e ∩ candidates`; it fails exactly
/// when some candidate is left out, and then names precisely
/// `candidates − accepted`.
pub proof fn lemma_listed_exports_intersect(
    r: Result<(String, Vec<String>), Problem>,
    path: std::path::PathBuf,
    lines: Seq<Seq<char>>,
    e: Set<Seq<char>>,
    tests: Seq<Seq<char>>,
    module: Seq<char>,
)
    requires
        exports_of_lines(lines) == Some(Exports::Names(e)),
        filtered(r, path, lines, tests, module),
    ensures
        accepted_names(Exports::Names(e), tests).to_set() == e.intersect(tests.to_set()),
        unexposed_names(Exports::Names(e), tests).to_set() == tests.to_set().difference(
            accepted_names(Exports::Names(e), tests).to_set(),
        ),
        r is Ok <==> tests.to_set().subset_of(e),
        r is Ok ==> r->Ok_0.1.deep_view().to_set() == e.intersect(tests.to_set()),
        r is Err ==> r->Err_0->UnexposedTests_1.deep_view().to_set() == tests.to_set().difference(
            e,
        ),
{
    let keep = |t: Seq<char>| e.contains(t);
    let drop = |t: Seq<char>| !e.contains(t);
    let acc = tests.filter(keep);
    let miss = tests.filter(drop);
    assert forall|x: Seq<char>| acc.contains(x) <==> e.intersect(tests.to_set()).contains(x) by {
        lemma_filter_member(tests, keep, x);
    }
    assert(acc.to_set() =~= e.intersect(tests.to_set()));
    assert forall|x: Seq<char>| miss.contains(x) <==> tests.to_set().difference(e).contains(x) by {
        lemma_filter_member(tests, drop, x);
    }
    assert(miss.to_set() =~= tests.to_set().difference(e));
    assert(tests.to_set().difference(acc.to_set()) =~= tests.to_set().difference(e));
    if miss.len() == 0 {
        assert forall|x: Seq<char>| tests.to_set().contains(x) implies e.contains(x) by {
            lemma_filter_member(tests, drop, x);
        }
    } else {
        assert(miss.contains(miss[0]));
        lemma_filter_member(tests, drop, miss[0]);
        assert(tests.to_set().contains(miss[0]));
    }
}

} // verus!
