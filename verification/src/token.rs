//! Lexical analysis: turns source text into a stream of tokens, each tagged
//! with the position just past its last character.
use vstd::prelude::*;

verus! {

use vstd::string::StrSliceExecFns;

/// A zero-based line/column pair, advanced by the tokenizer as it consumes
/// characters.
#[derive(Debug, Clone, Copy, PartialEq, Eq, Structural)]
pub struct Position {
    pub line: usize,
    pub column: usize,
}

/// A numeric literal. Floating-point payloads are carried as IEEE-754
/// binary64 bit patterns, so that the core works on plain integers; the
/// tokenizer itself only ever produces `Integer`.
#[derive(Debug, Clone, Copy, PartialEq, Eq, Structural)]
pub enum Number {
    Integer(u64),
    Float(u64),
}

/// What a token is.
#[derive(Debug, Clone, PartialEq)]
pub enum Payload {
    /// Unqualified name.
    Name(String),
    /// Name prefixed with `$` for variable access.
    Variable(String),
    /// Number literal.
    LitNumber(Number),
    /// The reserved word `let`.
    Let,
    /// `=>`
    Pipe,
    /// `;`
    Concat,
    /// `(`
    ParenL,
    /// `)`
    ParenR,
    /// A line break.
    Newline,
    /// A bang (`!`) followed by a line break.
    VoidNewline,
    /// The end of the input; repeated reads keep returning it.
    Eof,
}

/// The payload as contracts see it: identifiers as character sequences.
pub ghost enum SpecPayload {
    Name(Seq<char>),
    Variable(Seq<char>),
    LitNumber(Number),
    Let,
    Pipe,
    Concat,
    ParenL,
    ParenR,
    Newline,
    VoidNewline,
    Eof,
}

impl View for Payload {
    type V = SpecPayload;

    open spec fn view(&self) -> SpecPayload {
        match self {
            Payload::Name(s) => SpecPayload::Name(s@),
            Payload::Variable(s) => SpecPayload::Variable(s@),
            Payload::LitNumber(n) => SpecPayload::LitNumber(*n),
            Payload::Let => SpecPayload::Let,
            Payload::Pipe => SpecPayload::Pipe,
            Payload::Concat => SpecPayload::Concat,
            Payload::ParenL => SpecPayload::ParenL,
            Payload::ParenR => SpecPayload::ParenR,
            Payload::Newline => SpecPayload::Newline,
            Payload::VoidNewline => SpecPayload::VoidNewline,
            Payload::Eof => SpecPayload::Eof,
        }
    }
}

/// A token and the position just past it.
#[derive(Debug, Clone, PartialEq)]
pub struct Token {
    pub payload: Payload,
    pub position: Position,
}

/// A token in contract form.
pub ghost struct SpecToken {
    pub payload: SpecPayload,
    pub position: Position,
}

impl View for Token {
    type V = SpecToken;

    open spec fn view(&self) -> SpecToken {
        SpecToken { payload: self.payload@, position: self.position }
    }
}

/// The ways scanning can fail.
#[derive(Debug, Clone, Copy, PartialEq, Eq, Structural)]
pub enum ErrorKind {
    /// A carriage return not followed by a line feed.
    InvalidCRLFSequence,
    /// `$` not followed by a variable name.
    EmptyVariableName,
    /// A character that can start no token at all.
    EmptyFunctionName,
    /// An integer literal that does not fit in 64 unsigned bits.
    InvalidLiteral,
    /// `=` not followed by `>`.
    InvalidPipe,
    /// `!` not followed by a line break.
    ExpectedNewlineAfterBang,
}

/// A scan failure and where it happened.
#[derive(Debug, Clone, Copy, PartialEq, Eq, Structural)]
pub struct Error {
    pub kind: ErrorKind,
    pub at: Position,
}

// --- Character classes ---------------------------------------------------

/// Which characters above ASCII are white space; only `char::is_whitespace`
/// decides this, so nothing more is stated of it.
pub uninterp spec fn non_ascii_whitespace(c: char) -> bool;

/// Which characters above ASCII are numeric; only `char::is_numeric`
/// decides this, so nothing more is stated of it.
pub uninterp spec fn non_ascii_numeric(c: char) -> bool;

/// Unicode `White_Space`. Within ASCII these are exactly tab, line feed,
/// vertical tab, form feed, carriage return and space.
pub open spec fn is_unicode_whitespace(c: char) -> bool {
    if (c as u32) < 128 {
        c as u32 == 9 || c as u32 == 10 || c as u32 == 11 || c as u32 == 12 || c as u32 == 13
            || c as u32 == 32
    } else {
        non_ascii_whitespace(c)
    }
}

/// Unicode numeric characters (general categories Nd, Nl, No). Within ASCII
/// these are exactly the ten digits.
pub open spec fn is_unicode_numeric(c: char) -> bool {
    if (c as u32) < 128 {
        48 <= c as u32 && c as u32 <= 57
    } else {
        non_ascii_numeric(c)
    }
}

/// Relies on `char::is_whitespace`: true exactly on Unicode `White_Space`,
/// whose members below 128 are tab, LF, VT, FF, CR and space.
#[verifier::external_body]
fn char_is_whitespace(c: char) -> (b: bool)
    ensures
        b == is_unicode_whitespace(c),
        (c as u32) >= 128 ==> b == non_ascii_whitespace(c),
{
    c.is_whitespace()
}

/// Relies on `char::is_numeric`: true exactly on the Unicode general
/// categories Nd, Nl and No, whose members below 128 are the ten digits.
#[verifier::external_body]
fn char_is_numeric(c: char) -> (b: bool)
    ensures
        b == is_unicode_numeric(c),
        (c as u32) >= 128 ==> b == non_ascii_numeric(c),
{
    c.is_numeric()
}

/// A character that may stand inside a name: anything but the punctuation
/// the language reserves and white space.
pub open spec fn is_name_char(c: char) -> bool {
    c != ';' && c != '(' && c != ')' && c != '\'' && c != '$' && c != '=' && c != '!'
        && !is_unicode_whitespace(c)
}

/// A character that may start a name: a name character that is not numeric.
pub open spec fn is_name_start(c: char) -> bool {
    is_name_char(c) && !is_unicode_numeric(c)
}

/// An ASCII digit.
pub open spec fn is_ascii_digit_char(c: char) -> bool {
    48 <= c as u32 && c as u32 <= 57
}

fn check_name_char(c: char) -> (b: bool)
    ensures
        b == is_name_char(c),
{
    if c == ';' || c == '(' || c == ')' || c == '\'' || c == '$' || c == '=' || c == '!' {
        false
    } else {
        !char_is_whitespace(c)
    }
}

fn check_name_start(c: char) -> (b: bool)
    ensures
        b == is_name_start(c),
{
    if check_name_char(c) {
        !char_is_numeric(c)
    } else {
        false
    }
}

fn check_digit(c: char) -> (b: bool)
    ensures
        b == is_ascii_digit_char(c),
{
    let u = c as u32;
    48 <= u && u <= 57
}

// --- The scanning rules, as specification functions ----------------------

/// Where the run of name characters starting at `i` ends.
pub open spec fn name_run_end(s: Seq<char>, i: int) -> int
    decreases s.len() - i,
{
    if i < s.len() && is_name_char(s[i]) {
        name_run_end(s, i + 1)
    } else {
        i
    }
}

/// Where the name starting at `i` ends: its first character must be able to
/// start a name, the rest need only be name characters. `i` itself means
/// there is no name here.
pub open spec fn name_token_end(s: Seq<char>, i: int) -> int {
    if i < s.len() && is_name_start(s[i]) {
        name_run_end(s, i + 1)
    } else {
        i
    }
}

/// Where the run of ASCII digits starting at `i` ends.
pub open spec fn digit_run_end(s: Seq<char>, i: int) -> int
    decreases s.len() - i,
{
    if i < s.len() && is_ascii_digit_char(s[i]) {
        digit_run_end(s, i + 1)
    } else {
        i
    }
}

/// The value of a run of ASCII digits read as a decimal number.
pub open spec fn digits_value(ds: Seq<char>) -> int
    decreases ds.len(),
{
    if ds.len() == 0 {
        0
    } else {
        digits_value(ds.drop_last()) * 10 + (ds.last() as u32 - 48)
    }
}

/// The position after consuming `c` from `p`: a line feed starts the next
/// line, anything else moves one column.
pub open spec fn pos_after(p: Position, c: char) -> Position {
    if c == '\n' {
        Position { line: (p.line + 1) as usize, column: 0 }
    } else {
        Position { line: p.line, column: (p.column + 1) as usize }
    }
}

/// The position after consuming `k` characters none of which is a line feed.
pub open spec fn pos_cols(p: Position, k: int) -> Position {
    Position { line: p.line, column: (p.column + k) as usize }
}

/// What one scan does: the token or error it yields, the index just past
/// what it consumed, and the position there. Every token and error carries
/// that same end position.
pub ghost struct ScanOut {
    pub result: Result<SpecToken, Error>,
    pub end: int,
    pub pos: Position,
}

pub open spec fn scan_ok(p: SpecPayload, end: int, pos: Position) -> ScanOut {
    ScanOut { result: Ok(SpecToken { payload: p, position: pos }), end, pos }
}

pub open spec fn scan_err(k: ErrorKind, end: int, pos: Position) -> ScanOut {
    ScanOut { result: Err(Error { kind: k, at: pos }), end, pos }
}

/// One token scanned from `s` at index `i`, position `pos`: white space
/// (other than line breaks) is skipped; a line break is a token; `\r` must
/// pair with `\n` and `!` must be followed by a line break; `;`, `(`, `)`
/// are single-character tokens and `=` must pair with `>`; `$` introduces a
/// variable name; a leading ASCII digit starts an unsigned 64-bit integer
/// literal; anything else starts a name, which is the reserved word `let`
/// or a `Name` token; at the end of the input the end marker is yielded.
pub open spec fn spec_scan(s: Seq<char>, i: int, pos: Position) -> ScanOut
    decreases s.len() - i,
{
    if i >= s.len() {
        scan_ok(SpecPayload::Eof, i, pos)
    } else {
        let c = s[i];
        if c == '\n' {
            scan_ok(SpecPayload::Newline, i + 1, pos_after(pos, c))
        } else if c == '\r' {
            let p1 = pos_after(pos, c);
            if i + 1 >= s.len() {
                scan_err(ErrorKind::InvalidCRLFSequence, i + 1, p1)
            } else {
                let p2 = pos_after(p1, s[i + 1]);
                if s[i + 1] == '\n' {
                    scan_ok(SpecPayload::Newline, i + 2, p2)
                } else {
                    scan_err(ErrorKind::InvalidCRLFSequence, i + 2, p2)
                }
            }
        } else if c == '!' {
            let p1 = pos_after(pos, c);
            if i + 1 >= s.len() {
                scan_err(ErrorKind::ExpectedNewlineAfterBang, i + 1, p1)
            } else {
                let p2 = pos_after(p1, s[i + 1]);
                if s[i + 1] == '\n' {
                    scan_ok(SpecPayload::VoidNewline, i + 2, p2)
                } else {
                    scan_err(ErrorKind::ExpectedNewlineAfterBang, i + 2, p2)
                }
            }
        } else if c == ';' {
            scan_ok(SpecPayload::Concat, i + 1, pos_after(pos, c))
        } else if c == '=' {
            let p1 = pos_after(pos, c);
            if i + 1 >= s.len() {
                scan_err(ErrorKind::InvalidPipe, i + 1, p1)
            } else {
                let p2 = pos_after(p1, s[i + 1]);
                if s[i + 1] == '>' {
                    scan_ok(SpecPayload::Pipe, i + 2, p2)
                } else {
                    scan_err(ErrorKind::InvalidPipe, i + 2, p2)
                }
            }
        } else if c == '(' {
            scan_ok(SpecPayload::ParenL, i + 1, pos_after(pos, c))
        } else if c == ')' {
            scan_ok(SpecPayload::ParenR, i + 1, pos_after(pos, c))
        } else if is_unicode_whitespace(c) {
            spec_scan(s, i + 1, pos_after(pos, c))
        } else if c == '$' {
            let p1 = pos_after(pos, c);
            let end = name_token_end(s, i + 1);
            if end == i + 1 {
                scan_err(ErrorKind::EmptyVariableName, i + 1, p1)
            } else {
                scan_ok(
                    SpecPayload::Variable(s.subrange(i + 1, end)),
                    end,
                    pos_cols(p1, end - (i + 1)),
                )
            }
        } else if is_ascii_digit_char(c) {
            let end = digit_run_end(s, i);
            let p2 = pos_cols(pos, end - i);
            let v = digits_value(s.subrange(i, end));
            if v > u64::MAX {
                scan_err(ErrorKind::InvalidLiteral, end, p2)
            } else {
                scan_ok(SpecPayload::LitNumber(Number::Integer(v as u64)), end, p2)
            }
        } else {
            let end = name_token_end(s, i);
            if end == i {
                scan_err(ErrorKind::EmptyFunctionName, i, pos)
            } else {
                let name = s.subrange(i, end);
                let p2 = pos_cols(pos, end - i);
                if name == "let"@ {
                    scan_ok(SpecPayload::Let, end, p2)
                } else {
                    scan_ok(SpecPayload::Name(name), end, p2)
                }
            }
        }
    }
}

proof fn lemma_name_run_end_bounds(s: Seq<char>, i: int)
    requires
        0 <= i <= s.len(),
    ensures
        i <= name_run_end(s, i) <= s.len(),
    decreases s.len() - i,
{
    if i < s.len() && is_name_char(s[i]) {
        lemma_name_run_end_bounds(s, i + 1);
    }
}

proof fn lemma_digit_run_end_bounds(s: Seq<char>, i: int)
    requires
        0 <= i <= s.len(),
    ensures
        i <= digit_run_end(s, i) <= s.len(),
    decreases s.len() - i,
{
    if i < s.len() && is_ascii_digit_char(s[i]) {
        lemma_digit_run_end_bounds(s, i + 1);
    }
}

/// A scan never moves backwards, stays inside the source, and consumes at
/// least one character whenever it yields a token other than the end marker.
pub proof fn lemma_scan_bounds(s: Seq<char>, i: int, pos: Position)
    requires
        0 <= i <= s.len(),
    ensures
        ({
            let so = spec_scan(s, i, pos);
            &&& i <= so.end <= s.len()
            &&& (match so.result {
                Ok(t) => (!(t.payload is Eof) ==> so.end > i) && (t.payload is Eof
                    ==> so.end == s.len()),
                Err(_) => true,
            })
        }),
    decreases s.len() - i,
{
    if i < s.len() {
        let c = s[i];
        if c == '\n' || c == '\r' || c == '!' || c == ';' || c == '=' || c == '(' || c == ')' {
        } else if is_unicode_whitespace(c) {
            lemma_scan_bounds(s, i + 1, pos_after(pos, c));
        } else if c == '$' {
            if i + 1 < s.len() && is_name_start(s[i + 1]) {
                lemma_name_run_end_bounds(s, i + 2);
            }
        } else if is_ascii_digit_char(c) {
            lemma_digit_run_end_bounds(s, i + 1);
        } else {
            if is_name_start(c) {
                lemma_name_run_end_bounds(s, i + 1);
            }
        }
    }
}

/// How an executable scan result has to relate to the specified one.
pub open spec fn scan_matches(
    s: Seq<char>,
    i: int,
    pos: Position,
    r: Result<Token, Error>,
    end: int,
    endpos: Position,
) -> bool {
    let so = spec_scan(s, i, pos);
    &&& end == so.end
    &&& endpos == so.pos
    &&& match (r, so.result) {
        (Ok(t), Ok(st)) => t@ == st,
        (Err(e), Err(se)) => e == se,
        _ => false,
    }
}

// --- The tokenizer --------------------------------------------------------

/// A tokenizer over a borrowed source string. Lookahead does not need to
/// copy any state: peeking scans from the current index without committing.
pub struct StringTokenizer<'s> {
    src: &'s str,
    len: usize,
    idx: usize,
    position: Position,
}

impl<'s> StringTokenizer<'s> {
    /// The characters of the source.
    pub closed spec fn chars(&self) -> Seq<char> {
        self.src@
    }

    /// The index of the next character to be consumed.
    pub closed spec fn at(&self) -> int {
        self.idx as int
    }

    /// The current position.
    pub closed spec fn pos(&self) -> Position {
        self.position
    }

    /// The tokenizer's internal consistency: the cached length is the
    /// character count, the index is inside the source, and line and column
    /// never exceed the number of characters consumed.
    pub closed spec fn wf(&self) -> bool {
        &&& self.len as int == self.src@.len()
        &&& self.idx <= self.len
        &&& self.position.line <= self.idx
        &&& self.position.column <= self.idx
    }

    /// What well-formedness guarantees about the visible state.
    pub broadcast proof fn lemma_wf_bounds(self)
        ensures
            #[trigger] self.wf() ==> 0 <= self.at() <= self.chars().len()
                && self.pos().line <= self.at() && self.pos().column <= self.at(),
    {
    }

    pub fn new(src: &'s str) -> (t: Self)
        ensures
            t.wf(),
            t.chars() == src@,
            t.at() == 0,
            t.pos() == (Position { line: 0, column: 0 }),
    {
        let len = src.unicode_len();
        StringTokenizer { src, len, idx: 0, position: Position { line: 0, column: 0 } }
    }

    /// The next character, if any, without consuming it.
    pub fn current(&self) -> (c: Option<char>)
        requires
            self.wf(),
        ensures
            c == (if self.at() < self.chars().len() {
                Some(self.chars()[self.at()])
            } else {
                None::<char>
            }),
    {
        if self.idx < self.len {
            Some(self.src.get_char(self.idx))
        } else {
            None
        }
    }

    /// Consume one character, moving the position past it.
    pub fn advance(&mut self) -> (c: Option<char>)
        requires
            old(self).wf(),
        ensures
            final(self).wf(),
            final(self).chars() == old(self).chars(),
            if old(self).at() < old(self).chars().len() {
                &&& c == Some(old(self).chars()[old(self).at()])
                &&& final(self).at() == old(self).at() + 1
                &&& final(self).pos() == pos_after(
                    old(self).pos(),
                    old(self).chars()[old(self).at()],
                )
            } else {
                &&& c == None::<char>
                &&& final(self).at() == old(self).at()
                &&& final(self).pos() == old(self).pos()
            },
    {
        if self.idx < self.len {
            let c = self.src.get_char(self.idx);
            self.idx = self.idx + 1;
            if c == '\n' {
                self.position = Position { line: self.position.line + 1, column: 0 };
            } else {
                self.position = Position {
                    line: self.position.line,
                    column: self.position.column + 1,
                };
            }
            Some(c)
        } else {
            None
        }
    }

    /// The position just past the last consumed character.
    pub fn position(&self) -> (p: Position)
        ensures
            p == self.pos(),
    {
        self.position
    }

    /// Where the run of name characters starting at `from` ends.
    fn name_end(&self, from: usize) -> (end: usize)
        requires
            self.wf(),
            from <= self.len,
        ensures
            from <= end <= self.len,
            end as int == name_run_end(self.chars(), from as int),
    {
        let mut j = from;
        loop
            invariant
                self.wf(),
                from <= j <= self.len,
                name_run_end(self.chars(), from as int) == name_run_end(self.chars(), j as int),
            decreases self.len - j,
        {
            if j == self.len {
                return j;
            }
            let c = self.src.get_char(j);
            if check_name_char(c) {
                j = j + 1;
            } else {
                return j;
            }
        }
    }

    /// Scan the digit run starting at `from` and its value; `None` when the
    /// run does not fit in an unsigned 64-bit integer.
    fn scan_number(&self, from: usize) -> (out: (usize, Option<u64>))
        requires
            self.wf(),
            from <= self.len,
        ensures
            from <= out.0 <= self.len,
            out.0 as int == digit_run_end(self.chars(), from as int),
            ({
                let v = digits_value(self.chars().subrange(from as int, out.0 as int));
                match out.1 {
                    Some(x) => x as int == v,
                    None => v > u64::MAX,
                }
            }),
    {
        let mut j = from;
        let mut acc: u64 = 0;
        let mut over: bool = false;
        loop
            invariant
                self.wf(),
                from <= j <= self.len,
                digit_run_end(self.chars(), from as int) == digit_run_end(
                    self.chars(),
                    j as int,
                ),
                ({
                    let v = digits_value(self.chars().subrange(from as int, j as int));
                    if over {
                        v > u64::MAX
                    } else {
                        acc as int == v
                    }
                }),
            decreases self.len - j,
        {
            if j == self.len {
                return (j, if over { None } else { Some(acc) });
            }
            let c = self.src.get_char(j);
            if !check_digit(c) {
                return (j, if over { None } else { Some(acc) });
            }
            let d: u64 = (c as u32 as u64) - 48;
            proof {
                assert(self.chars().subrange(from as int, j + 1).drop_last() =~= self.chars()
                    .subrange(from as int, j as int));
                assert(self.chars().subrange(from as int, j + 1).last() == self.chars()[j as int]);
            }
            if !over {
                match acc.checked_mul(10) {
                    Some(m) => match m.checked_add(d) {
                        Some(n) => {
                            acc = n;
                        },
                        None => {
                            over = true;
                        },
                    },
                    None => {
                        proof {
                            assert(acc as int * 10 + d > u64::MAX);
                        }
                        over = true;
                    },
                }
            } else {
                proof {
                    let prev = digits_value(self.chars().subrange(from as int, j as int));
                    assert(prev * 10 >= prev) by (nonlinear_arith)
                        requires prev > u64::MAX as int
                    ;
                }
            }
            j = j + 1;
        }
    }

    /// Scan one token from the current state without committing to it:
    /// the result, the index past it and the position there.
    fn scan_token(&self) -> (out: (Result<Token, Error>, usize, Position))
        requires
            self.wf(),
        ensures
            scan_matches(self.chars(), self.at(), self.pos(), out.0, out.1 as int, out.2),
            out.1 <= self.chars().len(),
            out.2.line <= out.1 && out.2.column <= out.1,
    {
        let mut i = self.idx;
        let mut pos = self.position;
        loop
            invariant
                self.wf(),
                i <= self.len,
                pos.line <= i,
                pos.column <= i,
                spec_scan(self.chars(), self.at(), self.pos()) == spec_scan(
                    self.chars(),
                    i as int,
                    pos,
                ),
            decreases self.len - i,
        {
            if i == self.len {
                return (Ok(Token { payload: Payload::Eof, position: pos }), i, pos);
            }
            let c = self.src.get_char(i);
            if c == '\n' {
                let p = Position { line: pos.line + 1, column: 0 };
                return (Ok(Token { payload: Payload::Newline, position: p }), i + 1, p);
            } else if c == '\r' {
                let p1 = Position { line: pos.line, column: pos.column + 1 };
                if i + 1 == self.len {
                    return (Err(Error { kind: ErrorKind::InvalidCRLFSequence, at: p1 }), i + 1, p1);
                }
                let c2 = self.src.get_char(i + 1);
                if c2 == '\n' {
                    let p2 = Position { line: p1.line + 1, column: 0 };
                    return (Ok(Token { payload: Payload::Newline, position: p2 }), i + 2, p2);
                } else {
                    let p2 = Position { line: p1.line, column: p1.column + 1 };
                    return (Err(Error { kind: ErrorKind::InvalidCRLFSequence, at: p2 }), i + 2, p2);
                }
            } else if c == '!' {
                let p1 = Position { line: pos.line, column: pos.column + 1 };
                if i + 1 == self.len {
                    return (
                        Err(Error { kind: ErrorKind::ExpectedNewlineAfterBang, at: p1 }),
                        i + 1,
                        p1,
                    );
                }
                let c2 = self.src.get_char(i + 1);
                if c2 == '\n' {
                    let p2 = Position { line: p1.line + 1, column: 0 };
                    return (Ok(Token { payload: Payload::VoidNewline, position: p2 }), i + 2, p2);
                } else {
                    let p2 = Position { line: p1.line, column: p1.column + 1 };
                    return (
                        Err(Error { kind: ErrorKind::ExpectedNewlineAfterBang, at: p2 }),
                        i + 2,
                        p2,
                    );
                }
            } else if c == ';' {
                let p = Position { line: pos.line, column: pos.column + 1 };
                return (Ok(Token { payload: Payload::Concat, position: p }), i + 1, p);
            } else if c == '=' {
                let p1 = Position { line: pos.line, column: pos.column + 1 };
                if i + 1 == self.len {
                    return (Err(Error { kind: ErrorKind::InvalidPipe, at: p1 }), i + 1, p1);
                }
                let c2 = self.src.get_char(i + 1);
                if c2 == '>' {
                    let p2 = Position { line: p1.line, column: p1.column + 1 };
                    return (Ok(Token { payload: Payload::Pipe, position: p2 }), i + 2, p2);
                } else {
                    let p2 = if c2 == '\n' {
                        Position { line: p1.line + 1, column: 0 }
                    } else {
                        Position { line: p1.line, column: p1.column + 1 }
                    };
                    return (Err(Error { kind: ErrorKind::InvalidPipe, at: p2 }), i + 2, p2);
                }
            } else if c == '(' {
                let p = Position { line: pos.line, column: pos.column + 1 };
                return (Ok(Token { payload: Payload::ParenL, position: p }), i + 1, p);
            } else if c == ')' {
                let p = Position { line: pos.line, column: pos.column + 1 };
                return (Ok(Token { payload: Payload::ParenR, position: p }), i + 1, p);
            } else if char_is_whitespace(c) {
                pos = Position { line: pos.line, column: pos.column + 1 };
                i = i + 1;
            } else if c == '$' {
                let p1 = Position { line: pos.line, column: pos.column + 1 };
                let start = i + 1;
                let end = if start < self.len && check_name_start(self.src.get_char(start)) {
                    self.name_end(start + 1)
                } else {
                    start
                };
                if end == start {
                    return (Err(Error { kind: ErrorKind::EmptyVariableName, at: p1 }), start, p1);
                }
                let name = self.src.substring_char(start, end).to_owned();
                let p2 = Position { line: p1.line, column: p1.column + (end - start) };
                return (Ok(Token { payload: Payload::Variable(name), position: p2 }), end, p2);
            } else if check_digit(c) {
                let (end, value) = self.scan_number(i);
                let p2 = Position { line: pos.line, column: pos.column + (end - i) };
                match value {
                    Some(v) => {
                        return (
                            Ok(Token {
                                payload: Payload::LitNumber(Number::Integer(v)),
                                position: p2,
                            }),
                            end,
                            p2,
                        );
                    },
                    None => {
                        return (Err(Error { kind: ErrorKind::InvalidLiteral, at: p2 }), end, p2);
                    },
                }
            } else {
                let end = if check_name_start(c) {
                    self.name_end(i + 1)
                } else {
                    i
                };
                if end == i {
                    return (Err(Error { kind: ErrorKind::EmptyFunctionName, at: pos }), i, pos);
                }
                let name = self.src.substring_char(i, end).to_owned();
                let p2 = Position { line: pos.line, column: pos.column + (end - i) };
                let keyword: String = "let".to_owned();
                if name == keyword {
                    return (Ok(Token { payload: Payload::Let, position: p2 }), end, p2);
                } else {
                    return (Ok(Token { payload: Payload::Name(name), position: p2 }), end, p2);
                }
            }
        }
    }

    /// Read one token, consuming it.
    pub fn read_token(&mut self) -> (r: Result<Token, Error>)
        requires
            old(self).wf(),
        ensures
            final(self).wf(),
            final(self).chars() == old(self).chars(),
            ({
                let so = spec_scan(old(self).chars(), old(self).at(), old(self).pos());
                &&& final(self).at() == so.end
                &&& final(self).pos() == so.pos
                &&& match (r, so.result) {
                    (Ok(t), Ok(st)) => t@ == st,
                    (Err(e), Err(se)) => e == se,
                    _ => false,
                }
            }),
    {
        let (r, end, pos) = self.scan_token();
        self.idx = end;
        self.position = pos;
        r
    }

    /// Look at the next token without consuming it. Reading after a peek
    /// yields the same token from the same state.
    pub fn peek_token(&self) -> (r: Result<Token, Error>)
        requires
            self.wf(),
        ensures
            ({
                let so = spec_scan(self.chars(), self.at(), self.pos());
                match (r, so.result) {
                    (Ok(t), Ok(st)) => t@ == st,
                    (Err(e), Err(se)) => e == se,
                    _ => false,
                }
            }),
    {
        let (r, _, _) = self.scan_token();
        r
    }
}

} // verus!
