//! The selector grammar of an annotation argument list such as
//! `(a, b.c, get(), "nested.path")`.
//!
//! The grammar is regular, so it is stated as a transition function over
//! characters. Whitespace between tokens is ignored; the canonical text of a
//! selector is its significant characters (`something . do_this ()` becomes
//! `something.do_this()`).
use vstd::prelude::*;
use vstd::string::StrSliceExecFns;

verus! {

pub open spec fn is_space(c: char) -> bool {
    c == ' ' || c == '\t' || c == '\n' || c == '\r'
}

pub open spec fn is_digit(c: char) -> bool {
    '0' <= c && c <= '9'
}

/// A character that may begin an identifier. Any character beyond ASCII is
/// accepted: whether it forms a valid member name is left to the compiler
/// that reads the generated code.
pub open spec fn is_ident_start(c: char) -> bool {
    ('a' <= c && c <= 'z') || ('A' <= c && c <= 'Z') || c == '_' || c > '\u{7f}'
}

pub open spec fn is_ident_char(c: char) -> bool {
    is_ident_start(c) || is_digit(c)
}

/// Where the scanner stands. `quoted` tells whether the selector being read
/// sits inside a string literal.
#[derive(Clone, Copy, PartialEq, Eq, Structural)]
pub enum Mode {
    /// Before the opening parenthesis.
    Open,
    /// At the start of a list item.
    ItemStart,
    /// Expecting a path segment.
    SegStart { quoted: bool },
    /// Inside an identifier segment.
    Ident { quoted: bool },
    /// After a segment's first character `r`, which may begin a raw
    /// identifier (`r#type`).
    RawPrefix { quoted: bool },
    /// After `r#`: an identifier must follow.
    RawStart { quoted: bool },
    /// Inside a positional (decimal) segment.
    Index { quoted: bool },
    /// After a segment and some whitespace; `ident` tells whether the segment
    /// was an identifier, which alone may be called.
    AfterSeg { quoted: bool, ident: bool },
    /// After the opening parenthesis of a call.
    CallOpen { quoted: bool },
    /// After a complete call; only the end of the item may follow.
    AfterCall { quoted: bool },
    /// After the closing quote of a quoted selector.
    AfterQuote,
    /// After the closing parenthesis of the list.
    Closed,
    /// The text is not in the grammar.
    Failed,
}

/// What a character does to the selector being read.
#[derive(Clone, Copy, PartialEq, Eq, Structural)]
pub enum Act {
    /// The character is not part of any selector's text.
    Skip,
    /// The character is appended to the current selector's text.
    Keep,
    /// The current selector is complete.
    Finish,
}

/// The mode that ends a selector on `c`, if `c` ends one.
pub open spec fn item_end(quoted: bool, c: char) -> Option<Mode> {
    if quoted {
        if c == '"' { Some(Mode::AfterQuote) } else { None }
    } else if c == ',' {
        Some(Mode::ItemStart)
    } else if c == ')' {
        Some(Mode::Closed)
    } else {
        None
    }
}

pub open spec fn finish_or_fail(quoted: bool, c: char) -> (Mode, Act) {
    match item_end(quoted, c) {
        Some(m) => (m, Act::Finish),
        None => (Mode::Failed, Act::Skip),
    }
}

/// A character read inside an identifier segment.
pub open spec fn ident_step(quoted: bool, c: char) -> (Mode, Act) {
    if is_ident_char(c) {
        (Mode::Ident { quoted }, Act::Keep)
    } else if is_space(c) {
        (Mode::AfterSeg { quoted, ident: true }, Act::Skip)
    } else if c == '.' {
        (Mode::SegStart { quoted }, Act::Keep)
    } else if c == '(' {
        (Mode::CallOpen { quoted }, Act::Keep)
    } else {
        finish_or_fail(quoted, c)
    }
}

/// The transition function of the grammar.
pub open spec fn step(m: Mode, c: char) -> (Mode, Act) {
    match m {
        Mode::Open => if is_space(c) {
            (Mode::Open, Act::Skip)
        } else if c == '(' {
            (Mode::ItemStart, Act::Skip)
        } else {
            (Mode::Failed, Act::Skip)
        },
        Mode::ItemStart => if is_space(c) {
            (Mode::ItemStart, Act::Skip)
        } else if c == '"' {
            (Mode::SegStart { quoted: true }, Act::Skip)
        } else if c == 'r' {
            (Mode::RawPrefix { quoted: false }, Act::Keep)
        } else if is_ident_start(c) {
            (Mode::Ident { quoted: false }, Act::Keep)
        } else if is_digit(c) {
            (Mode::Index { quoted: false }, Act::Keep)
        } else if c == ')' {
            (Mode::Closed, Act::Skip)
        } else {
            (Mode::Failed, Act::Skip)
        },
        Mode::SegStart { quoted } => if is_space(c) {
            (Mode::SegStart { quoted }, Act::Skip)
        } else if c == 'r' {
            (Mode::RawPrefix { quoted }, Act::Keep)
        } else if is_ident_start(c) {
            (Mode::Ident { quoted }, Act::Keep)
        } else if is_digit(c) {
            (Mode::Index { quoted }, Act::Keep)
        } else {
            (Mode::Failed, Act::Skip)
        },
        Mode::Ident { quoted } => ident_step(quoted, c),
        Mode::RawPrefix { quoted } => if c == '#' {
            (Mode::RawStart { quoted }, Act::Keep)
        } else {
            ident_step(quoted, c)
        },
        Mode::RawStart { quoted } => if is_ident_start(c) {
            (Mode::Ident { quoted }, Act::Keep)
        } else {
            (Mode::Failed, Act::Skip)
        },
        Mode::Index { quoted } => if is_digit(c) {
            (Mode::Index { quoted }, Act::Keep)
        } else if is_space(c) {
            (Mode::AfterSeg { quoted, ident: false }, Act::Skip)
        } else if c == '.' {
            (Mode::SegStart { quoted }, Act::Keep)
        } else {
            finish_or_fail(quoted, c)
        },
        Mode::AfterSeg { quoted, ident } => if is_space(c) {
            (Mode::AfterSeg { quoted, ident }, Act::Skip)
        } else if c == '.' {
            (Mode::SegStart { quoted }, Act::Keep)
        } else if c == '(' && ident {
            (Mode::CallOpen { quoted }, Act::Keep)
        } else {
            finish_or_fail(quoted, c)
        },
        Mode::CallOpen { quoted } => if is_space(c) {
            (Mode::CallOpen { quoted }, Act::Skip)
        } else if c == ')' {
            (Mode::AfterCall { quoted }, Act::Keep)
        } else {
            (Mode::Failed, Act::Skip)
        },
        Mode::AfterCall { quoted } => if is_space(c) {
            (Mode::AfterCall { quoted }, Act::Skip)
        } else {
            finish_or_fail(quoted, c)
        },
        Mode::AfterQuote => if is_space(c) {
            (Mode::AfterQuote, Act::Skip)
        } else if c == ',' {
            (Mode::ItemStart, Act::Skip)
        } else if c == ')' {
            (Mode::Closed, Act::Skip)
        } else {
            (Mode::Failed, Act::Skip)
        },
        Mode::Closed => if is_space(c) {
            (Mode::Closed, Act::Skip)
        } else {
            (Mode::Failed, Act::Skip)
        },
        Mode::Failed => (Mode::Failed, Act::Skip),
    }
}

/// The scanner's state after a prefix of the text: its mode, the selectors
/// completed so far and the text of the one being read.
pub struct ScanState {
    pub mode: Mode,
    pub items: Seq<Seq<char>>,
    pub cur: Seq<char>,
}

pub open spec fn advance(s: ScanState, c: char) -> ScanState {
    let (m, a) = step(s.mode, c);
    match a {
        Act::Skip => ScanState { mode: m, ..s },
        Act::Keep => ScanState { mode: m, items: s.items, cur: s.cur.push(c) },
        Act::Finish => ScanState { mode: m, items: s.items.push(s.cur), cur: Seq::empty() },
    }
}

pub open spec fn scan(t: Seq<char>) -> ScanState
    decreases t.len(),
{
    if t.len() == 0 {
        ScanState { mode: Mode::Open, items: Seq::empty(), cur: Seq::empty() }
    } else {
        advance(scan(t.drop_last()), t.last())
    }
}

/// The selectors of an argument list, in order, or `None` where the text is
/// not in the grammar.
pub open spec fn parse_list(t: Seq<char>) -> Option<Seq<Seq<char>>> {
    let s = scan(t);
    if s.mode == Mode::Closed { Some(s.items) } else { None }
}

pub open spec fn texts(v: Seq<String>) -> Seq<Seq<char>> {
    v.map_values(|s: String| s@)
}

fn is_space_exec(c: char) -> (r: bool)
    ensures
        r == is_space(c),
{
    c == ' ' || c == '\t' || c == '\n' || c == '\r'
}

fn is_digit_exec(c: char) -> (r: bool)
    ensures
        r == is_digit(c),
{
    '0' <= c && c <= '9'
}

fn is_ident_start_exec(c: char) -> (r: bool)
    ensures
        r == is_ident_start(c),
{
    ('a' <= c && c <= 'z') || ('A' <= c && c <= 'Z') || c == '_' || c > '\u{7f}'
}

fn finish_or_fail_exec(quoted: bool, c: char) -> (r: (Mode, Act))
    ensures
        r == finish_or_fail(quoted, c),
{
    if quoted {
        if c == '"' { (Mode::AfterQuote, Act::Finish) } else { (Mode::Failed, Act::Skip) }
    } else if c == ',' {
        (Mode::ItemStart, Act::Finish)
    } else if c == ')' {
        (Mode::Closed, Act::Finish)
    } else {
        (Mode::Failed, Act::Skip)
    }
}

fn ident_transition(quoted: bool, c: char) -> (r: (Mode, Act))
    ensures
        r == ident_step(quoted, c),
{
    if is_ident_start_exec(c) || is_digit_exec(c) {
        (Mode::Ident { quoted }, Act::Keep)
    } else if is_space_exec(c) {
        (Mode::AfterSeg { quoted, ident: true }, Act::Skip)
    } else if c == '.' {
        (Mode::SegStart { quoted }, Act::Keep)
    } else if c == '(' {
        (Mode::CallOpen { quoted }, Act::Keep)
    } else {
        finish_or_fail_exec(quoted, c)
    }
}

fn transition(m: Mode, c: char) -> (r: (Mode, Act))
    ensures
        r == step(m, c),
{
    let space = is_space_exec(c);
    let digit = is_digit_exec(c);
    let start = is_ident_start_exec(c);
    match m {
        Mode::Open => if space {
            (Mode::Open, Act::Skip)
        } else if c == '(' {
            (Mode::ItemStart, Act::Skip)
        } else {
            (Mode::Failed, Act::Skip)
        },
        Mode::ItemStart => if space {
            (Mode::ItemStart, Act::Skip)
        } else if c == '"' {
            (Mode::SegStart { quoted: true }, Act::Skip)
        } else if c == 'r' {
            (Mode::RawPrefix { quoted: false }, Act::Keep)
        } else if start {
            (Mode::Ident { quoted: false }, Act::Keep)
        } else if digit {
            (Mode::Index { quoted: false }, Act::Keep)
        } else if c == ')' {
            (Mode::Closed, Act::Skip)
        } else {
            (Mode::Failed, Act::Skip)
        },
        Mode::SegStart { quoted } => if space {
            (Mode::SegStart { quoted }, Act::Skip)
        } else if c == 'r' {
            (Mode::RawPrefix { quoted }, Act::Keep)
        } else if start {
            (Mode::Ident { quoted }, Act::Keep)
        } else if digit {
            (Mode::Index { quoted }, Act::Keep)
        } else {
            (Mode::Failed, Act::Skip)
        },
        Mode::Ident { quoted } => ident_transition(quoted, c),
        Mode::RawPrefix { quoted } => if c == '#' {
            (Mode::RawStart { quoted }, Act::Keep)
        } else {
            ident_transition(quoted, c)
        },
        Mode::RawStart { quoted } => if start {
            (Mode::Ident { quoted }, Act::Keep)
        } else {
            (Mode::Failed, Act::Skip)
        },
        Mode::Index { quoted } => if digit {
            (Mode::Index { quoted }, Act::Keep)
        } else if space {
            (Mode::AfterSeg { quoted, ident: false }, Act::Skip)
        } else if c == '.' {
            (Mode::SegStart { quoted }, Act::Keep)
        } else {
            finish_or_fail_exec(quoted, c)
        },
        Mode::AfterSeg { quoted, ident } => if space {
            (Mode::AfterSeg { quoted, ident }, Act::Skip)
        } else if c == '.' {
            (Mode::SegStart { quoted }, Act::Keep)
        } else if c == '(' && ident {
            (Mode::CallOpen { quoted }, Act::Keep)
        } else {
            finish_or_fail_exec(quoted, c)
        },
        Mode::CallOpen { quoted } => if space {
            (Mode::CallOpen { quoted }, Act::Skip)
        } else if c == ')' {
            (Mode::AfterCall { quoted }, Act::Keep)
        } else {
            (Mode::Failed, Act::Skip)
        },
        Mode::AfterCall { quoted } => if space {
            (Mode::AfterCall { quoted }, Act::Skip)
        } else {
            finish_or_fail_exec(quoted, c)
        },
        Mode::AfterQuote => if space {
            (Mode::AfterQuote, Act::Skip)
        } else if c == ',' {
            (Mode::ItemStart, Act::Skip)
        } else if c == ')' {
            (Mode::Closed, Act::Skip)
        } else {
            (Mode::Failed, Act::Skip)
        },
        Mode::Closed => if space {
            (Mode::Closed, Act::Skip)
        } else {
            (Mode::Failed, Act::Skip)
        },
        Mode::Failed => (Mode::Failed, Act::Skip),
    }
}

/// Parses an annotation argument list into the canonical texts of its
/// selectors. Each item is a member path (`a.b.0`) whose last segment, if an
/// identifier, may be called with no arguments (`a.len()`), or such a path
/// inside a string literal (`"a.b"`). A trailing comma is allowed.
/// Identifiers may hold characters beyond ASCII and may be raw (`r#type`).
/// A string literal holds the selector's text as it is: escape sequences and
/// raw string literals are refused, since any selector can be written
/// without them.
pub fn parse_selector_list(text: &str) -> (r: Option<Vec<String>>)
    ensures
        match parse_list(text@) {
            Some(v) => r is Some && texts(r->0@) == v,
            None => r is None,
        },
{
    let n = text.unicode_len();
    let mut mode = Mode::Open;
    let mut items: Vec<String> = Vec::new();
    let mut cur = String::new();
    let mut i: usize = 0;
    proof {
        assert(text@.take(0) =~= Seq::<char>::empty());
        assert(texts(items@) =~= Seq::<Seq<char>>::empty());
    }
    while i < n
        invariant
            i <= n,
            n == text@.len(),
            scan(text@.take(i as int)) == (ScanState { mode, items: texts(items@), cur: cur@ }),
        decreases n - i,
    {
        let c = text.get_char(i);
        let (m, a) = transition(mode, c);
        let ghost before = ScanState { mode, items: texts(items@), cur: cur@ };
        proof {
            assert(text@.take(i + 1).drop_last() =~= text@.take(i as int));
            assert(text@.take(i + 1).last() == c);
            assert(scan(text@.take(i + 1)) == advance(before, c));
        }
        match a {
            Act::Skip => {
                assert(advance(before, c) == ScanState { mode: m, items: texts(items@), cur: cur@ });
            },
            Act::Keep => {
                let one = text.substring_char(i, i + 1);
                proof {
                    assert(one@ =~= seq![c]);
                }
                cur.append(one);
                assert(cur@ == before.cur.push(c));
                assert(advance(before, c) == ScanState { mode: m, items: texts(items@), cur: cur@ });
            },
            Act::Finish => {
                let done = cur;
                items.push(done);
                cur = String::new();
                proof {
                    assert(texts(items@) =~= before.items.push(done@));
                    assert(cur@ =~= Seq::<char>::empty());
                }
                assert(advance(before, c) == ScanState { mode: m, items: texts(items@), cur: cur@ });
            },
        }
        mode = m;
        i = i + 1;
    }
    proof {
        assert(text@.take(n as int) =~= text@);
    }
    match mode {
        Mode::Closed => Some(items),
        _ => None,
    }
}

} // verus!
