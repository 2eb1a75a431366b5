//! The module-header scanner: a state machine fed one source line at a time
//! that finds `module ... exposing (...)` and collects the text of the
//! exposing clause.

use vstd::prelude::*;
use crate::comments::{strip, strip_chars};
use crate::text::{chars_of, matches_at, occurs_at, trim, trim_chars};

verus! {

/// The keyword that opens a plain module header.
pub open spec fn module_word() -> Seq<char> {
    seq!['m', 'o', 'd', 'u', 'l', 'e']
}

/// The prefix of a port module header.
pub open spec fn port_module_word() -> Seq<char> {
    seq!['p', 'o', 'r', 't', ' '] + module_word()
}

/// The prefix of an effect module header.
pub open spec fn effect_module_word() -> Seq<char> {
    seq!['e', 'f', 'f', 'e', 'c', 't', ' '] + module_word()
}

/// The keyword that introduces the exposing clause.
pub open spec fn exposing_word() -> Seq<char> {
    seq!['e', 'x', 'p', 'o', 's', 'i', 'n', 'g']
}

/// The length of the module-header prefix that `t` holds at position `i`, if any.
pub open spec fn module_prefix_len(t: Seq<char>, i: int) -> Option<int> {
    if occurs_at(t, module_word(), i) {
        Some(module_word().len() as int)
    } else if occurs_at(t, port_module_word(), i) {
        Some(port_module_word().len() as int)
    } else if occurs_at(t, effect_module_word(), i) {
        Some(effect_module_word().len() as int)
    } else {
        None
    }
}

/// Where the scan of a header stands.
pub enum Phase {
    AwaitingModuleKeyword,
    ReadingModuleName,
    AwaitingOpenBracket,
    /// Inside the exposing clause, `open` parentheses deep below its own,
    /// with `text` read so far.
    AccumulatingExposedNames { open: nat, text: Seq<char> },
    /// The clause is closed; `text` is what stood between its parentheses.
    Done { text: Seq<char> },
    /// Content came before any module header.
    MissingModule,
}

/// Whether no further line changes the phase.
pub open spec fn terminal(p: Phase) -> bool {
    p is Done || p is MissingModule
}

/// The phase reached from `p` by reading the cleaned line `t` from position `i` on.
pub open spec fn advance(p: Phase, t: Seq<char>, i: int) -> Phase
    decreases t.len() - i,
{
    if i < 0 || i >= t.len() {
        p
    } else {
        match p {
            Phase::AwaitingModuleKeyword => match module_prefix_len(t, i) {
                Some(k) => advance(Phase::ReadingModuleName, t, i + k),
                None => Phase::MissingModule,
            },
            Phase::ReadingModuleName => if occurs_at(t, exposing_word(), i) {
                advance(Phase::AwaitingOpenBracket, t, i + exposing_word().len())
            } else {
                advance(Phase::ReadingModuleName, t, i + 1)
            },
            Phase::AwaitingOpenBracket => if t[i] == '(' {
                advance(Phase::AccumulatingExposedNames { open: 0, text: Seq::empty() }, t, i + 1)
            } else {
                advance(Phase::AwaitingOpenBracket, t, i + 1)
            },
            Phase::AccumulatingExposedNames { open, text } => if t[i] == '(' {
                advance(
                    Phase::AccumulatingExposedNames { open: open + 1, text: text.push('(') },
                    t,
                    i + 1,
                )
            } else if t[i] == ')' {
                if open == 0 {
                    Phase::Done { text }
                } else {
                    advance(
                        Phase::AccumulatingExposedNames { open: (open - 1) as nat, text: text.push(')') },
                        t,
                        i + 1,
                    )
                }
            } else {
                advance(
                    Phase::AccumulatingExposedNames { open, text: text.push(t[i]) },
                    t,
                    i + 1,
                )
            },
            _ => p,
        }
    }
}

/// The scanner's state between lines.
pub struct ScanView {
    pub in_comment: bool,
    pub phase: Phase,
}

/// The state before the first line.
pub open spec fn start() -> ScanView {
    ScanView { in_comment: false, phase: Phase::AwaitingModuleKeyword }
}

/// The state after reading the raw source line `line` in state `s`.
pub open spec fn scan_line(s: ScanView, line: Seq<char>) -> ScanView {
    if terminal(s.phase) {
        s
    } else {
        let cleaned = strip(line, s.in_comment);
        ScanView { in_comment: cleaned.1, phase: advance(s.phase, trim(cleaned.0), 0) }
    }
}

/// The state after reading `lines` in turn from the start.
pub open spec fn scan_lines(lines: Seq<Seq<char>>) -> ScanView
    decreases lines.len(),
{
    if lines.len() == 0 {
        start()
    } else {
        scan_line(scan_lines(lines.drop_last()), lines.last())
    }
}

/// Where the scan of a header stands, as held by the scanner.
pub enum ScanState {
    AwaitingModuleKeyword,
    ReadingModuleName,
    AwaitingOpenBracket,
    AccumulatingExposedNames { open: usize, text: Vec<char> },
    Done { text: Vec<char> },
    MissingModuleDeclaration,
}

impl View for ScanState {
    type V = Phase;

    open spec fn view(&self) -> Phase {
        match self {
            ScanState::AwaitingModuleKeyword => Phase::AwaitingModuleKeyword,
            ScanState::ReadingModuleName => Phase::ReadingModuleName,
            ScanState::AwaitingOpenBracket => Phase::AwaitingOpenBracket,
            ScanState::AccumulatingExposedNames { open, text } => {
                Phase::AccumulatingExposedNames { open: *open as nat, text: text@ }
            },
            ScanState::Done { text } => Phase::Done { text: text@ },
            ScanState::MissingModuleDeclaration => Phase::MissingModule,
        }
    }
}

impl ScanState {
    /// The parenthesis count never exceeds the text read.
    pub open spec fn wf(&self) -> bool {
        match self {
            ScanState::AccumulatingExposedNames { open, text } => *open <= text@.len(),
            _ => true,
        }
    }

    /// Whether no further line changes the state.
    pub fn is_terminal(&self) -> (r: bool)
        ensures
            r == terminal(self@),
    {
        match self {
            ScanState::Done { .. } | ScanState::MissingModuleDeclaration => true,
            _ => false,
        }
    }
}

/// The length of the module-header prefix at position `i` of `t`, if any.
fn module_prefix(t: &Vec<char>, i: usize) -> (r: Option<usize>)
    requires
        i <= t@.len(),
    ensures
        r matches Some(k) ==> module_prefix_len(t@, i as int) == Some(k as int),
        r is None ==> module_prefix_len(t@, i as int) is None,
{
    let plain = vec!['m', 'o', 'd', 'u', 'l', 'e'];
    let port = vec!['p', 'o', 'r', 't', ' ', 'm', 'o', 'd', 'u', 'l', 'e'];
    let effect = vec!['e', 'f', 'f', 'e', 'c', 't', ' ', 'm', 'o', 'd', 'u', 'l', 'e'];
    assert(plain@ =~= module_word());
    assert(port@ =~= port_module_word());
    assert(effect@ =~= effect_module_word());
    if matches_at(t, &plain, i) {
        Some(6)
    } else if matches_at(t, &port, i) {
        Some(11)
    } else if matches_at(t, &effect, i) {
        Some(13)
    } else {
        None
    }
}

/// Reads the cleaned, trimmed line `t` in state `state`.
fn advance_line(state: ScanState, t: &Vec<char>) -> (r: ScanState)
    requires
        state.wf(),
    ensures
        r.wf(),
        r@ == advance(state@, t@, 0),
{
    let n = t.len();
    let exposing = vec!['e', 'x', 'p', 'o', 's', 'i', 'n', 'g'];
    assert(exposing@ =~= exposing_word());
    let mut st = state;
    let mut i: usize = 0;
    while i < n
        invariant
            n == t@.len(),
            i <= n,
            exposing@ == exposing_word(),
            st.wf(),
            advance(st@, t@, i as int) == advance(state@, t@, 0),
        decreases n - i,
    {
        match st {
            ScanState::AwaitingModuleKeyword => {
                match module_prefix(t, i) {
                    Some(k) => {
                        st = ScanState::ReadingModuleName;
                        i = i + k;
                    },
                    None => {
                        st = ScanState::MissingModuleDeclaration;
                        i = n;
                    },
                }
            },
            ScanState::ReadingModuleName => {
                if matches_at(t, &exposing, i) {
                    st = ScanState::AwaitingOpenBracket;
                    i = i + 8;
                } else {
                    i = i + 1;
                }
            },
            ScanState::AwaitingOpenBracket => {
                if t[i] == '(' {
                    st = ScanState::AccumulatingExposedNames { open: 0, text: Vec::new() };
                }
                i = i + 1;
            },
            ScanState::AccumulatingExposedNames { open, mut text } => {
                let c = t[i];
                if c == ')' && open == 0 {
                    st = ScanState::Done { text };
                    i = n;
                } else {
                    text.push(c);
                    // bounds the parenthesis count: it never exceeds this length
                    let _len: usize = text.len();
                    if c == '(' {
                        st = ScanState::AccumulatingExposedNames { open: open + 1, text };
                    } else if c == ')' {
                        st = ScanState::AccumulatingExposedNames { open: open - 1, text };
                    } else {
                        st = ScanState::AccumulatingExposedNames { open, text };
                    }
                    i = i + 1;
                }
            },
            _ => {
                i = n;
            },
        }
    }
    st
}

/// The header scanner: the block-comment flag carried from line to line, and
/// the state of the scan.
pub struct HeaderScanner {
    in_comment: bool,
    state: ScanState,
}

impl View for HeaderScanner {
    type V = ScanView;

    closed spec fn view(&self) -> ScanView {
        ScanView { in_comment: self.in_comment, phase: self.state@ }
    }
}

impl HeaderScanner {
    /// The state's own invariant holds.
    pub closed spec fn wf(&self) -> bool {
        self.state.wf()
    }

    /// A scanner before the first line.
    pub fn new() -> (r: HeaderScanner)
        ensures
            r.wf(),
            r@ == start(),
    {
        HeaderScanner { in_comment: false, state: ScanState::AwaitingModuleKeyword }
    }

    /// Whether a block comment is open after the lines read so far.
    pub fn in_comment(&self) -> (r: bool)
        ensures
            r == self@.in_comment,
    {
        self.in_comment
    }

    /// The state of the scan.
    pub fn state(&self) -> (r: &ScanState)
        ensures
            r@ == self@.phase,
            self.wf() ==> r.wf(),
    {
        &self.state
    }

    /// Whether no further line changes the scan.
    pub fn is_finished(&self) -> (r: bool)
        ensures
            r == terminal(self@.phase),
    {
        self.state.is_terminal()
    }

    /// The final state of the scan.
    pub fn into_state(self) -> (r: ScanState)
        requires
            self.wf(),
        ensures
            r.wf(),
            r@ == self@.phase,
    {
        self.state
    }
}

/// Reads one raw source line: removes its comments, carrying the block-comment
/// flag, and moves the scan on over what is left.
pub fn parse_line(scanner: HeaderScanner, line: &str) -> (r: HeaderScanner)
    requires
        scanner.wf(),
    ensures
        r.wf(),
        r@ == scan_line(scanner@, line@),
{
    if scanner.state.is_terminal() {
        return scanner;
    }
    let chars = chars_of(line);
    let (kept, open) = strip_chars(&chars, scanner.in_comment);
    let cleaned = trim_chars(&kept);
    let state = advance_line(scanner.state, &cleaned);
    HeaderScanner { in_comment: open, state }
}

/// Reads `lines` in turn with a fresh scanner.
pub fn scan_all(lines: &Vec<String>) -> (r: HeaderScanner)
    ensures
        r.wf(),
        r@ == scan_lines(lines.deep_view()),
{
    let mut scanner = HeaderScanner::new();
    let mut i: usize = 0;
    while i < lines.len()
        invariant
            i <= lines@.len(),
            scanner.wf(),
            scanner@ == scan_lines(lines.deep_view().take(i as int)),
        decreases lines@.len() - i,
    {
        let ghost before = lines.deep_view().take(i as int);
        scanner = parse_line(scanner, lines[i].as_str());
        i = i + 1;
        assert(lines.deep_view().take(i as int).drop_last() =~= before);
    }
    assert(lines.deep_view().take(i as int) =~= lines.deep_view());
    scanner
}

} // verus!
