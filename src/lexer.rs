//! Splits source text into tokens, each with its start and end location.

use vstd::prelude::*;

use crate::comment_stripper::{chars_of, push_char};

verus! {

#[derive(PartialEq, Debug)]
pub enum Tok {
    Identifier(String),
    // Literals
    Integer(i32),
    Char(char),
    String(String),
    // Key words
    Function,
    Return,
    Let,
    If,
    While,
    And,
    Not,
    Or,
    // Punctuation
    LeftParen,
    RightParen,
    LeftBrace,
    RightBrace,
    LeftBracket,
    RightBracket,
    SemiColon,
    Comma,
    Equal,
    LessThan,
    MoreThan,
    LessThanOrEqual,
    MoreThanOrEqual,
    DoubleEqual,
    NotEqual,
    Ampersand,
    Pipe,
    Caret,
    Plus,
    Minus,
    Tilde,
    LeftShift,
    RightShift,
    Asterisk,
    Percent,
    ForwardSlash,
}

/// A lexical error and where it was found.
#[derive(PartialEq, Debug)]
pub struct Error {
    pub location: Location,
    pub kind: ErrorKind,
}

#[derive(Clone, Copy, PartialEq, Eq, Debug, Structural)]
pub enum ErrorKind {
    IllegalChar(char),
    LonelyExclamation,
    EofInCharLiteral,
    BadCharLiteral,
    EofInString,
    MisPlacedCharacterReturn,
    /// A number literal that does not fit a 32-bit signed integer.
    NumberTooLarge,
}

/// A position in a source text.
#[derive(Clone, Copy, PartialEq, Eq, Debug, Structural)]
pub struct Location {
    pub line: usize,
    pub line_offset_chars: usize,
    pub file_offset_bytes: usize,
}

impl Location {
    pub fn new(line: usize, line_offset_chars: usize, file_offset_bytes: usize) -> (r: Location)
        ensures
            r == (Location { line, line_offset_chars, file_offset_bytes }),
    {
        Location { line, line_offset_chars, file_offset_bytes }
    }
}

/// The number of bytes of a character in UTF-8.
pub open spec fn utf8_len(c: char) -> nat {
    if (c as u32) < 0x80 {
        1
    } else if (c as u32) < 0x800 {
        2
    } else if (c as u32) < 0x10000 {
        3
    } else {
        4
    }
}

/// The number of bytes of a text in UTF-8.
pub open spec fn byte_len(s: Seq<char>) -> nat
    decreases s.len(),
{
    if s.len() == 0 {
        0
    } else {
        byte_len(s.drop_last()) + utf8_len(s.last())
    }
}

pub proof fn lemma_byte_len_take_mono(s: Seq<char>, i: int, j: int)
    requires
        0 <= i <= j <= s.len(),
    ensures
        byte_len(s.take(i)) + (j - i) <= byte_len(s.take(j)),
        byte_len(s.take(j)) <= byte_len(s),
{
    lemma_byte_len_take_grows(s, i, j);
    lemma_byte_len_take_grows(s, j, s.len() as int);
    assert(s.take(s.len() as int) =~= s);
}

proof fn lemma_byte_len_take_grows(s: Seq<char>, i: int, j: int)
    requires
        0 <= i <= j <= s.len(),
    ensures
        byte_len(s.take(i)) + (j - i) <= byte_len(s.take(j)),
    decreases j - i,
{
    if i < j {
        assert(s.take(j).drop_last() =~= s.take(j - 1));
        lemma_byte_len_take_grows(s, i, j - 1);
    }
}

fn char_bytes(c: char) -> (r: usize)
    ensures
        r == utf8_len(c),
{
    let n = c as u32;
    if n < 0x80 {
        1
    } else if n < 0x800 {
        2
    } else if n < 0x10000 {
        3
    } else {
        4
    }
}

pub open spec fn is_identifier_char_spec(c: char) -> bool {
    ('a' <= c <= 'z') || ('A' <= c <= 'Z') || ('0' <= c <= '9') || c == '_'
}

fn is_identifier_char(c: char) -> (r: bool)
    ensures
        r == is_identifier_char_spec(c),
{
    ('a' <= c && c <= 'z') || ('A' <= c && c <= 'Z') || ('0' <= c && c <= '9') || c == '_'
}

/// Where the next token starts, and how it starts.
pub enum FindTokenStartState {
    WholeToken(Tok),
    PunctuationStart,
    NumberStart,
    CharStart,
    StringStart,
    IdentifierOrKeyWordStart,
    Invalid(ErrorKind),
    EndOfFile,
}

/// The token a single character makes on its own, if any.
pub open spec fn single_char_tok(c: char) -> Option<Tok> {
    if c == '(' {
        Some(Tok::LeftParen)
    } else if c == ')' {
        Some(Tok::RightParen)
    } else if c == '{' {
        Some(Tok::LeftBrace)
    } else if c == '}' {
        Some(Tok::RightBrace)
    } else if c == ']' {
        Some(Tok::LeftBracket)
    } else if c == '[' {
        Some(Tok::RightBracket)
    } else if c == ';' {
        Some(Tok::SemiColon)
    } else if c == ',' {
        Some(Tok::Comma)
    } else if c == '&' {
        Some(Tok::Ampersand)
    } else if c == '|' {
        Some(Tok::Pipe)
    } else if c == '^' {
        Some(Tok::Caret)
    } else if c == '+' {
        Some(Tok::Plus)
    } else if c == '-' {
        Some(Tok::Minus)
    } else if c == '~' {
        Some(Tok::Tilde)
    } else if c == '*' {
        Some(Tok::Asterisk)
    } else if c == '%' {
        Some(Tok::Percent)
    } else if c == '/' {
        Some(Tok::ForwardSlash)
    } else {
        None
    }
}

/// How a token starting with `c` continues.
pub open spec fn start_state(c: char) -> FindTokenStartState {
    if single_char_tok(c) is Some {
        FindTokenStartState::WholeToken(single_char_tok(c)->0)
    } else if c == '=' || c == '<' || c == '>' || c == '!' {
        FindTokenStartState::PunctuationStart
    } else if '0' <= c <= '9' {
        FindTokenStartState::NumberStart
    } else if c == '\'' {
        FindTokenStartState::CharStart
    } else if c == '"' {
        FindTokenStartState::StringStart
    } else if ('a' <= c <= 'z') || ('A' <= c <= 'Z') || c == '_' {
        FindTokenStartState::IdentifierOrKeyWordStart
    } else {
        FindTokenStartState::Invalid(ErrorKind::IllegalChar(c))
    }
}

/// Skips blanks, line breaks and comments from `s[i..]`: where the next token
/// starts, the line and line offset there, and how the token starts. A
/// carriage return must be followed by a line feed.
pub open spec fn scan(s: Seq<char>, i: int, line: int, off: int, in_comment: bool, expect_lf: bool) -> (
    int,
    int,
    int,
    FindTokenStartState,
)
    decreases s.len() - i,
{
    if i < 0 || i >= s.len() {
        (s.len() as int, line, off, FindTokenStartState::EndOfFile)
    } else if expect_lf && s[i] != '\n' {
        (i - 1, line, off - 1, FindTokenStartState::Invalid(ErrorKind::MisPlacedCharacterReturn))
    } else if s[i] == ' ' || s[i] == '\t' {
        scan(s, i + 1, line, off + 1, in_comment, expect_lf)
    } else if s[i] == '\r' {
        scan(s, i + 1, line, off + 1, in_comment, true)
    } else if s[i] == '\n' {
        scan(s, i + 1, line + 1, 0, false, false)
    } else if s[i] == '#' || in_comment {
        scan(s, i + 1, line, off + 1, true, expect_lf)
    } else {
        (i, line, off, start_state(s[i]))
    }
}

/// What a token is, with its text where it has one.
pub enum Lexeme {
    Word(Seq<char>),
    Number(i32),
    Character(char),
    Text(Seq<char>),
    Plain(Tok),
}

/// The key word a word is, if any.
pub open spec fn keyword(w: Seq<char>) -> Option<Tok> {
    if w == seq!['f', 'u', 'n', 'c', 't', 'i', 'o', 'n'] {
        Some(Tok::Function)
    } else if w == seq!['r', 'e', 't', 'u', 'r', 'n'] {
        Some(Tok::Return)
    } else if w == seq!['l', 'e', 't'] {
        Some(Tok::Let)
    } else if w == seq!['i', 'f'] {
        Some(Tok::If)
    } else if w == seq!['w', 'h', 'i', 'l', 'e'] {
        Some(Tok::While)
    } else if w == seq!['a', 'n', 'd'] {
        Some(Tok::And)
    } else if w == seq!['n', 'o', 't'] {
        Some(Tok::Not)
    } else if w == seq!['o', 'r'] {
        Some(Tok::Or)
    } else {
        None
    }
}

/// `t` is the token for lexeme `l`.
pub open spec fn tok_is(t: Tok, l: Lexeme) -> bool {
    match l {
        Lexeme::Word(w) => match keyword(w) {
            Some(k) => t == k,
            None => t matches Tok::Identifier(name) && name@ == w,
        },
        Lexeme::Number(v) => t == Tok::Integer(v),
        Lexeme::Character(c) => t == Tok::Char(c),
        Lexeme::Text(x) => t matches Tok::String(y) && y@ == x,
        Lexeme::Plain(u) => t == u,
    }
}

/// The length of the run of decimal digits of `s` from `j`.
pub open spec fn digit_run(s: Seq<char>, j: int) -> nat
    decreases s.len() - j,
{
    if j < 0 || j >= s.len() || !is_digit(s[j]) {
        0
    } else {
        1 + digit_run(s, j + 1)
    }
}

/// The length of the run of identifier characters of `s` from `j`.
pub open spec fn ident_run(s: Seq<char>, j: int) -> nat
    decreases s.len() - j,
{
    if j < 0 || j >= s.len() || !is_identifier_char_spec(s[j]) {
        0
    } else {
        1 + ident_run(s, j + 1)
    }
}

pub open spec fn is_digit(c: char) -> bool {
    '0' <= c <= '9'
}

/// The value of the decimal digits `s[j..j + n]`.
pub open spec fn digits_value(s: Seq<char>, j: int, n: nat) -> int
    decreases n,
{
    if n == 0 {
        0
    } else {
        digits_value(s, j, (n - 1) as nat) * 10 + (s[j + n - 1] as int - '0' as int)
    }
}

/// The index of the first `"` in `s[k..]`, if any.
pub open spec fn find_quote(s: Seq<char>, k: int) -> Option<int>
    decreases s.len() - k,
{
    if k < 0 || k >= s.len() {
        None
    } else if s[k] == '"' {
        Some(k)
    } else {
        find_quote(s, k + 1)
    }
}

/// An operator made of `=`, `<`, `>` or `!`, maybe followed by a second
/// character, starting at `j`: its token and length, or the error.
pub open spec fn punctuation_at(s: Seq<char>, j: int) -> Result<(Lexeme, nat), ErrorKind> {
    let second = if j + 1 < s.len() {
        Some(s[j + 1])
    } else {
        None
    };
    if s[j] == '=' {
        if second == Some('=') {
            Ok((Lexeme::Plain(Tok::DoubleEqual), 2))
        } else {
            Ok((Lexeme::Plain(Tok::Equal), 1))
        }
    } else if s[j] == '<' {
        if second == Some('=') {
            Ok((Lexeme::Plain(Tok::LessThanOrEqual), 2))
        } else if second == Some('<') {
            Ok((Lexeme::Plain(Tok::LeftShift), 2))
        } else {
            Ok((Lexeme::Plain(Tok::LessThan), 1))
        }
    } else if s[j] == '>' {
        if second == Some('=') {
            Ok((Lexeme::Plain(Tok::MoreThanOrEqual), 2))
        } else if second == Some('>') {
            Ok((Lexeme::Plain(Tok::RightShift), 2))
        } else {
            Ok((Lexeme::Plain(Tok::MoreThan), 1))
        }
    } else if second == Some('=') {
        Ok((Lexeme::Plain(Tok::NotEqual), 2))
    } else {
        Err(ErrorKind::LonelyExclamation)
    }
}

/// The token that starts at `j` in state `st`, and how many characters it
/// takes; or the error found there.
pub open spec fn token_at(s: Seq<char>, j: int, st: FindTokenStartState) -> Result<(Lexeme, nat), ErrorKind> {
    match st {
        FindTokenStartState::WholeToken(t) => Ok((Lexeme::Plain(t), 1)),
        FindTokenStartState::PunctuationStart => punctuation_at(s, j),
        FindTokenStartState::NumberStart => {
            let n = digit_run(s, j);
            if digits_value(s, j, n) <= i32::MAX {
                Ok((Lexeme::Number(digits_value(s, j, n) as i32), n))
            } else {
                Err(ErrorKind::NumberTooLarge)
            }
        },
        FindTokenStartState::CharStart => if j + 2 >= s.len() {
            Err(ErrorKind::EofInCharLiteral)
        } else if s[j + 2] != '\'' {
            Err(ErrorKind::BadCharLiteral)
        } else {
            Ok((Lexeme::Character(s[j + 1]), 3))
        },
        FindTokenStartState::StringStart => match find_quote(s, j + 1) {
            Some(k) => Ok((Lexeme::Text(s.subrange(j + 1, k)), (k - j + 1) as nat)),
            None => Err(ErrorKind::EofInString),
        },
        FindTokenStartState::IdentifierOrKeyWordStart => {
            let n = ident_run(s, j);
            Ok((Lexeme::Word(s.subrange(j, j + n)), n))
        },
        FindTokenStartState::Invalid(k) => Err(k),
        // `next` stops before it looks for a token at the end of the text.
        FindTokenStartState::EndOfFile => Err(ErrorKind::EofInString),
    }
}

/// A location moved `b` bytes forward on the same line.
pub open spec fn advance(l: Location, b: nat) -> Location {
    Location {
        line: l.line,
        line_offset_chars: (l.line_offset_chars + b) as usize,
        file_offset_bytes: (l.file_offset_bytes + b) as usize,
    }
}

/// `r` is what reading the lexeme result `res` at location `loc`, index `j`,
/// reports.
pub open spec fn step_result(
    s: Seq<char>,
    j: int,
    loc: Location,
    res: Result<(Lexeme, nat), ErrorKind>,
    r: Result<(Location, Tok, Location), Error>,
) -> bool {
    match res {
        Ok((lx, n)) => r matches Ok((a, t, b)) && a == loc && tok_is(t, lx) && b == advance(
            loc,
            byte_len(s.subrange(j, j + n)),
        ),
        Err(k) => r == Err::<(Location, Tok, Location), Error>(Error { location: loc, kind: k }),
    }
}

/// Where reading the lexeme result `res` at index `j`, location `start`, with
/// report `r`, leaves the matcher: after a token, just past it, at the token's
/// end location; after an error, failed, at the error's location.
pub open spec fn step_moves(
    j: int,
    res: Result<(Lexeme, nat), ErrorKind>,
    start: Location,
    r: Result<(Location, Tok, Location), Error>,
    new_pos: int,
    new_loc: Location,
    failed: bool,
) -> bool {
    match res {
        Ok((_, n)) => new_pos == j + n && !failed && (r matches Ok((_, _, end)) && new_loc == end),
        Err(_) => failed && new_loc == start,
    }
}

/// What one call of `next` reports and where it leaves the matcher, from
/// index `p` at location `loc` of text `s`.
pub open spec fn next_spec(
    s: Seq<char>,
    p: int,
    loc: Location,
    r: Option<Result<(Location, Tok, Location), Error>>,
    new_pos: int,
    new_loc: Location,
    failed: bool,
) -> bool {
    let (j, line, off, st) = scan(s, p, loc.line as int, loc.line_offset_chars as int, false, false);
    let start = Location {
        line: line as usize,
        line_offset_chars: off as usize,
        file_offset_bytes: byte_len(s.take(j)) as usize,
    };
    if st is EndOfFile {
        r is None && new_pos == j && new_loc == start && !failed
    } else {
        let res = token_at(s, j, st);
        &&& r is Some
        &&& step_result(s, j, start, res, r->0)
        &&& step_moves(j, res, start, r->0, new_pos, new_loc, failed)
    }
}

/// Turns source text into tokens, one per call of `next`; stops for good at
/// the first error.
pub struct Matcher {
    chars: Vec<char>,
    pos: usize,
    location: Location,
    failed: bool,
}

impl Matcher {
    /// The whole text.
    pub closed spec fn text(&self) -> Seq<char> {
        self.chars@
    }

    /// Where the text not yet read starts.
    pub closed spec fn pos(&self) -> int {
        self.pos as int
    }

    pub closed spec fn location(&self) -> Location {
        self.location
    }

    pub closed spec fn has_failed(&self) -> bool {
        self.failed
    }

    pub closed spec fn wf(&self) -> bool {
        &&& self.pos <= self.chars@.len()
        &&& byte_len(self.chars@) < usize::MAX
        &&& self.location.file_offset_bytes == byte_len(self.chars@.take(self.pos as int))
        &&& self.location.line_offset_chars <= self.location.file_offset_bytes
        &&& self.location.line <= self.location.file_offset_bytes + 1
    }

    pub fn new(text: &str) -> (r: Matcher)
        requires
            byte_len(text@) < usize::MAX,
        ensures
            r.wf(),
            r.text() == text@,
            r.pos() == 0,
            r.location() == (Location { line: 1, line_offset_chars: 0, file_offset_bytes: 0 }),
            !r.has_failed(),
    {
        let chars = chars_of(text);
        assert(chars@.take(0) =~= seq![]);
        assert(byte_len(chars@.take(0)) == 0);
        Matcher { chars, pos: 0, location: Location::new(1, 0, 0), failed: false }
    }

    /// Skips blanks, line breaks and comments: the index where the next
    /// token starts, the bytes skipped, and how the token starts. Keeps the
    /// line and line offset up to date.
    fn find_token_start(&mut self) -> (r: (usize, usize, FindTokenStartState))
        requires
            old(self).wf(),
        ensures
            ({
                let (j, line, off, st) = scan(
                    old(self).chars@,
                    old(self).pos as int,
                    old(self).location.line as int,
                    old(self).location.line_offset_chars as int,
                    false,
                    false,
                );
                &&& r.0 == j
                &&& r.2 == st
                &&& final(self).location.line == line
                &&& final(self).location.line_offset_chars == off
                &&& old(self).pos <= j <= old(self).chars@.len()
                &&& r.1 == byte_len(old(self).chars@.take(j)) - byte_len(
                    old(self).chars@.take(old(self).pos as int),
                )
                &&& off <= byte_len(old(self).chars@.take(j))
                &&& line <= byte_len(old(self).chars@.take(j)) + 1
                &&& (st !is EndOfFile ==> j < old(self).chars@.len())
                &&& (st is EndOfFile ==> j == old(self).chars@.len())
                &&& (!(st is Invalid) && !(st is EndOfFile)) ==> st == start_state(
                    old(self).chars@[j],
                )
            }),
            final(self).chars == old(self).chars,
            final(self).pos == old(self).pos,
            final(self).failed == old(self).failed,
            final(self).location.file_offset_bytes == old(self).location.file_offset_bytes,
    {
        let ghost s = self.chars@;
        let ghost p = self.pos as int;
        let ghost l0 = self.location.line as int;
        let ghost o0 = self.location.line_offset_chars as int;
        let mut i = self.pos;
        let mut bytes: usize = 0;
        let mut in_comment = false;
        let mut expect_line_feed = false;
        proof {
            lemma_byte_len_take_mono(s, p, s.len() as int);
        }
        while i < self.chars.len()
            invariant
                self.chars@ == s,
                p <= i <= s.len(),
                byte_len(s) < usize::MAX,
                bytes == byte_len(s.take(i as int)) - byte_len(s.take(p)),
                byte_len(s.take(p)) <= byte_len(s.take(i as int)) <= byte_len(s),
                self.location.line_offset_chars <= byte_len(s.take(i as int)),
                self.location.line <= byte_len(s.take(i as int)) + 1,
                expect_line_feed ==> i > p && s[i - 1] == '\r' && self.location.line_offset_chars
                    >= 1 && bytes >= 1 && self.location.line <= byte_len(s.take(i - 1)) + 1,
                scan(s, p, l0, o0, false, false) == scan(
                    s,
                    i as int,
                    self.location.line as int,
                    self.location.line_offset_chars as int,
                    in_comment,
                    expect_line_feed,
                ),
                self.pos == p,
                l0 == old(self).location.line,
                o0 == old(self).location.line_offset_chars,
                s == old(self).chars@,
                self.chars == old(self).chars,
                self.pos == old(self).pos,
                self.failed == old(self).failed,
                self.location.file_offset_bytes == old(self).location.file_offset_bytes,
            decreases s.len() - i,
        {
            let c = self.chars[i];
            proof {
                assert(s.take(i + 1).drop_last() =~= s.take(i as int));
                lemma_byte_len_take_mono(s, i + 1, s.len() as int);
                if expect_line_feed {
                    assert(s.take(i as int).drop_last() =~= s.take(i - 1));
                    lemma_byte_len_take_mono(s, p, i - 1);
                }
            }
            if expect_line_feed && c != '\n' {
                assert(scan(
                    s,
                    i as int,
                    self.location.line as int,
                    self.location.line_offset_chars as int,
                    in_comment,
                    expect_line_feed,
                ) == (
                    i - 1,
                    self.location.line as int,
                    self.location.line_offset_chars - 1,
                    FindTokenStartState::Invalid(ErrorKind::MisPlacedCharacterReturn),
                ));
                self.location.line_offset_chars = self.location.line_offset_chars - 1;
                return (i - 1, bytes - 1, FindTokenStartState::Invalid(ErrorKind::MisPlacedCharacterReturn));
            }
            if c == ' ' || c == '\t' {
                self.location.line_offset_chars = self.location.line_offset_chars + 1;
            } else if c == '\r' {
                expect_line_feed = true;
                self.location.line_offset_chars = self.location.line_offset_chars + 1;
            } else if c == '\n' {
                self.location.line = self.location.line + 1;
                self.location.line_offset_chars = 0;
                expect_line_feed = false;
                in_comment = false;
            } else if c == '#' || in_comment {
                self.location.line_offset_chars = self.location.line_offset_chars + 1;
                in_comment = true;
            } else {
                assert(scan(
                    s,
                    i as int,
                    self.location.line as int,
                    self.location.line_offset_chars as int,
                    in_comment,
                    expect_line_feed,
                ) == (i as int, self.location.line as int, self.location.line_offset_chars as int, start_state(c)));
                return (i, bytes, start_state_of(c));
            }
            bytes = bytes + char_bytes(c);
            i = i + 1;
        }
        (i, bytes, FindTokenStartState::EndOfFile)
    }

    /// Moves past the next `n` characters.
    fn consume(&mut self, n: usize)
        requires
            old(self).wf(),
            old(self).pos + n <= old(self).chars@.len(),
        ensures
            final(self).wf(),
            final(self).chars == old(self).chars,
            final(self).failed == old(self).failed,
            final(self).pos == old(self).pos + n,
            final(self).location == advance(
                old(self).location,
                byte_len(old(self).chars@.subrange(old(self).pos as int, old(self).pos + n)),
            ),
    {
        let ghost s = self.chars@;
        let ghost p = self.pos as int;
        let ghost l0 = self.location;
        let len = self.chars.len();
        let end = self.pos + n;
        let mut bytes: usize = 0;
        let mut i = self.pos;
        proof {
            assert(s.subrange(p, p) =~= seq![]);
            lemma_byte_len_take_mono(s, p, end as int);
        }
        while i < end
            invariant
                self.chars@ == s,
                self.pos == p,
                self.location == l0,
                self.failed == old(self).failed,
                p <= i <= end <= s.len(),
                byte_len(s) < usize::MAX,
                l0.file_offset_bytes == byte_len(s.take(p)),
                bytes == byte_len(s.subrange(p, i as int)),
                byte_len(s.take(p)) + bytes == byte_len(s.take(i as int)),
                byte_len(s.take(end as int)) <= byte_len(s),
            decreases end - i,
        {
            proof {
                assert(s.subrange(p, i + 1).drop_last() =~= s.subrange(p, i as int));
                assert(s.take(i + 1).drop_last() =~= s.take(i as int));
                lemma_byte_len_take_mono(s, i + 1, end as int);
            }
            bytes = bytes + char_bytes(self.chars[i]);
            i = i + 1;
        }
        self.pos = end;
        self.location.file_offset_bytes = self.location.file_offset_bytes + bytes;
        self.location.line_offset_chars = self.location.line_offset_chars + bytes;
    }

    /// The token `tok`, `n` characters long, at the current location.
    fn token(&mut self, tok: Tok, n: usize) -> (r: Result<(Location, Tok, Location), Error>)
        requires
            old(self).wf(),
            old(self).pos + n <= old(self).chars@.len(),
        ensures
            final(self).wf(),
            final(self).chars == old(self).chars,
            final(self).failed == old(self).failed,
            final(self).pos == old(self).pos + n,
            r == Ok::<(Location, Tok, Location), Error>(
                (old(self).location, tok, final(self).location),
            ),
            final(self).location == advance(
                old(self).location,
                byte_len(old(self).chars@.subrange(old(self).pos as int, old(self).pos + n)),
            ),
    {
        let start = self.location;
        self.consume(n);
        Ok((start, tok, self.location))
    }

    /// An operator of one or two characters among `=`, `<`, `>` and `!`.
    fn extract_punctuation(&mut self) -> (r: Result<(Location, Tok, Location), Error>)
        requires
            old(self).wf(),
            !old(self).failed,
            old(self).pos < old(self).chars@.len(),
            start_state(old(self).chars@[old(self).pos as int]) is PunctuationStart,
        ensures
            final(self).wf(),
            final(self).chars == old(self).chars,
            step_result(
                old(self).chars@,
                old(self).pos as int,
                old(self).location,
                token_at(old(self).chars@, old(self).pos as int, FindTokenStartState::PunctuationStart),
                r,
            ),
            step_moves(
                old(self).pos as int,
                token_at(old(self).chars@, old(self).pos as int, FindTokenStartState::PunctuationStart),
                old(self).location,
                r,
                final(self).pos as int,
                final(self).location,
                final(self).failed,
            ),
    {
        let p = self.pos;
        let len = self.chars.len();
        let c = self.chars[p];
        let has_second = p + 1 < len;
        let second_eq = has_second && self.chars[p + 1] == '=';
        let second_lt = has_second && self.chars[p + 1] == '<';
        let second_gt = has_second && self.chars[p + 1] == '>';
        if c == '=' {
            if second_eq {
                self.token(Tok::DoubleEqual, 2)
            } else {
                self.token(Tok::Equal, 1)
            }
        } else if c == '<' {
            if second_eq {
                self.token(Tok::LessThanOrEqual, 2)
            } else if second_lt {
                self.token(Tok::LeftShift, 2)
            } else {
                self.token(Tok::LessThan, 1)
            }
        } else if c == '>' {
            if second_eq {
                self.token(Tok::MoreThanOrEqual, 2)
            } else if second_gt {
                self.token(Tok::RightShift, 2)
            } else {
                self.token(Tok::MoreThan, 1)
            }
        } else if second_eq {
            self.token(Tok::NotEqual, 2)
        } else {
            self.err(ErrorKind::LonelyExclamation)
        }
    }

    /// A decimal integer literal.
    fn extract_number(&mut self) -> (r: Result<(Location, Tok, Location), Error>)
        requires
            old(self).wf(),
            !old(self).failed,
            old(self).pos < old(self).chars@.len(),
            start_state(old(self).chars@[old(self).pos as int]) is NumberStart,
        ensures
            final(self).wf(),
            final(self).chars == old(self).chars,
            step_result(
                old(self).chars@,
                old(self).pos as int,
                old(self).location,
                token_at(old(self).chars@, old(self).pos as int, FindTokenStartState::NumberStart),
                r,
            ),
            step_moves(
                old(self).pos as int,
                token_at(old(self).chars@, old(self).pos as int, FindTokenStartState::NumberStart),
                old(self).location,
                r,
                final(self).pos as int,
                final(self).location,
                final(self).failed,
            ),
    {
        let ghost s = self.chars@;
        let p = self.pos;
        let mut k = p;
        let mut value: i64 = 0;
        let mut too_large = false;
        while k < self.chars.len() && '0' <= self.chars[k] && self.chars[k] <= '9'
            invariant
                self.chars@ == s,
                p <= k <= s.len(),
                digit_run(s, p as int) == (k - p) + digit_run(s, k as int),
                !too_large ==> value == digits_value(s, p as int, (k - p) as nat) && 0 <= value
                    <= i32::MAX,
                too_large ==> digits_value(s, p as int, (k - p) as nat) > i32::MAX,
            decreases s.len() - k,
        {
            let d = (self.chars[k] as u32 - '0' as u32) as i64;
            if !too_large {
                let v = value * 10 + d;
                if v > i32::MAX as i64 {
                    too_large = true;
                } else {
                    value = v;
                }
            }
            k = k + 1;
            proof {
                assert(digits_value(s, p as int, (k - p) as nat) == digits_value(
                    s,
                    p as int,
                    (k - 1 - p) as nat,
                ) * 10 + d);
            }
        }
        if too_large {
            self.err(ErrorKind::NumberTooLarge)
        } else {
            self.token(Tok::Integer(value as i32), k - p)
        }
    }

    /// A character literal: one character between single quotes.
    fn extract_char(&mut self) -> (r: Result<(Location, Tok, Location), Error>)
        requires
            old(self).wf(),
            !old(self).failed,
            old(self).pos < old(self).chars@.len(),
            start_state(old(self).chars@[old(self).pos as int]) is CharStart,
        ensures
            final(self).wf(),
            final(self).chars == old(self).chars,
            step_result(
                old(self).chars@,
                old(self).pos as int,
                old(self).location,
                token_at(old(self).chars@, old(self).pos as int, FindTokenStartState::CharStart),
                r,
            ),
            step_moves(
                old(self).pos as int,
                token_at(old(self).chars@, old(self).pos as int, FindTokenStartState::CharStart),
                old(self).location,
                r,
                final(self).pos as int,
                final(self).location,
                final(self).failed,
            ),
    {
        let p = self.pos;
        let len = self.chars.len();
        if len - p <= 2 {
            return self.err(ErrorKind::EofInCharLiteral);
        }
        if self.chars[p + 2] != '\'' {
            return self.err(ErrorKind::BadCharLiteral);
        }
        let c = self.chars[p + 1];
        self.token(Tok::Char(c), 3)
    }

    /// A string literal: the text up to the next double quote.
    fn extract_string(&mut self) -> (r: Result<(Location, Tok, Location), Error>)
        requires
            old(self).wf(),
            !old(self).failed,
            old(self).pos < old(self).chars@.len(),
            start_state(old(self).chars@[old(self).pos as int]) is StringStart,
        ensures
            final(self).wf(),
            final(self).chars == old(self).chars,
            step_result(
                old(self).chars@,
                old(self).pos as int,
                old(self).location,
                token_at(old(self).chars@, old(self).pos as int, FindTokenStartState::StringStart),
                r,
            ),
            step_moves(
                old(self).pos as int,
                token_at(old(self).chars@, old(self).pos as int, FindTokenStartState::StringStart),
                old(self).location,
                r,
                final(self).pos as int,
                final(self).location,
                final(self).failed,
            ),
    {
        let ghost s = self.chars@;
        let p = self.pos;
        let len = self.chars.len();
        let mut k = p + 1;
        while k < self.chars.len() && self.chars[k] != '"'
            invariant
                self.chars@ == s,
                p + 1 <= k <= s.len(),
                find_quote(s, p + 1) == find_quote(s, k as int),
            decreases s.len() - k,
        {
            k = k + 1;
        }
        if k >= self.chars.len() {
            return self.err(ErrorKind::EofInString);
        }
        let mut text = String::new();
        let mut q = p + 1;
        while q < k
            invariant
                self.chars@ == s,
                p + 1 <= q <= k < s.len(),
                text@ == s.subrange(p + 1, q as int),
            decreases k - q,
        {
            push_char(&mut text, self.chars[q]);
            q = q + 1;
            assert(text@ =~= s.subrange(p + 1, q as int));
        }
        self.token(Tok::String(text), k - p + 1)
    }

    /// A key word, or else an identifier.
    fn extract_identifier_or_keyword(&mut self) -> (r: Result<(Location, Tok, Location), Error>)
        requires
            old(self).wf(),
            !old(self).failed,
            old(self).pos < old(self).chars@.len(),
            start_state(old(self).chars@[old(self).pos as int]) is IdentifierOrKeyWordStart,
        ensures
            final(self).wf(),
            final(self).chars == old(self).chars,
            step_result(
                old(self).chars@,
                old(self).pos as int,
                old(self).location,
                token_at(old(self).chars@, old(self).pos as int, FindTokenStartState::IdentifierOrKeyWordStart),
                r,
            ),
            step_moves(
                old(self).pos as int,
                token_at(old(self).chars@, old(self).pos as int, FindTokenStartState::IdentifierOrKeyWordStart),
                old(self).location,
                r,
                final(self).pos as int,
                final(self).location,
                final(self).failed,
            ),
    {
        let ghost s = self.chars@;
        let p = self.pos;
        let mut k = p;
        let mut word = String::new();
        while k < self.chars.len() && is_identifier_char(self.chars[k])
            invariant
                self.chars@ == s,
                p <= k <= s.len(),
                ident_run(s, p as int) == (k - p) + ident_run(s, k as int),
                word@ == s.subrange(p as int, k as int),
            decreases s.len() - k,
        {
            push_char(&mut word, self.chars[k]);
            k = k + 1;
            assert(word@ =~= s.subrange(p as int, k as int));
        }
        let tok = keyword_or_identifier(word);
        self.token(tok, k - p)
    }

    /// The next token, or the error that ends the text's tokens; `None` at
    /// the end of the text and after an error.
    pub fn next(&mut self) -> (r: Option<Result<(Location, Tok, Location), Error>>)
        requires
            old(self).wf(),
        ensures
            final(self).wf(),
            final(self).text() == old(self).text(),
            old(self).has_failed() ==> r is None && final(self).has_failed(),
            !old(self).has_failed() ==> next_spec(
                old(self).text(),
                old(self).pos(),
                old(self).location(),
                r,
                final(self).pos(),
                final(self).location(),
                final(self).has_failed(),
            ),
    {
        if self.failed {
            return None;
        }
        let ghost s = self.chars@;
        let (start, bytes, state) = self.find_token_start();
        proof {
            lemma_byte_len_take_mono(s, self.pos as int, start as int);
        }
        self.location.file_offset_bytes = self.location.file_offset_bytes + bytes;
        self.pos = start;
        match state {
            FindTokenStartState::WholeToken(token) => Some(self.token(token, 1)),
            FindTokenStartState::PunctuationStart => Some(self.extract_punctuation()),
            FindTokenStartState::NumberStart => Some(self.extract_number()),
            FindTokenStartState::CharStart => Some(self.extract_char()),
            FindTokenStartState::StringStart => Some(self.extract_string()),
            FindTokenStartState::IdentifierOrKeyWordStart => Some(
                self.extract_identifier_or_keyword(),
            ),
            FindTokenStartState::Invalid(e) => Some(self.err(e)),
            FindTokenStartState::EndOfFile => None,
        }
    }

    /// Fails at the current location; no token comes after.
    fn err(&mut self, kind: ErrorKind) -> (r: Result<(Location, Tok, Location), Error>)
        requires
            old(self).wf(),
        ensures
            final(self).wf(),
            final(self).chars == old(self).chars,
            final(self).pos == old(self).pos,
            final(self).location == old(self).location,
            final(self).failed,
            r == Err::<(Location, Tok, Location), Error>(
                Error { location: old(self).location, kind },
            ),
    {
        self.failed = true;
        Err(Error { location: self.location, kind })
    }
}

/// The key word `word` is, or else the identifier `word`.
fn keyword_or_identifier(word: String) -> (r: Tok)
    ensures
        tok_is(r, Lexeme::Word(word@)),
{
    proof {
        reveal_strlit("function");
        reveal_strlit("return");
        reveal_strlit("let");
        reveal_strlit("if");
        reveal_strlit("while");
        reveal_strlit("and");
        reveal_strlit("not");
        reveal_strlit("or");
        assert("function"@ =~= seq!['f', 'u', 'n', 'c', 't', 'i', 'o', 'n']);
        assert("return"@ =~= seq!['r', 'e', 't', 'u', 'r', 'n']);
        assert("let"@ =~= seq!['l', 'e', 't']);
        assert("if"@ =~= seq!['i', 'f']);
        assert("while"@ =~= seq!['w', 'h', 'i', 'l', 'e']);
        assert("and"@ =~= seq!['a', 'n', 'd']);
        assert("not"@ =~= seq!['n', 'o', 't']);
        assert("or"@ =~= seq!['o', 'r']);
    }
    if word == "function".to_owned() {
        Tok::Function
    } else if word == "return".to_owned() {
        Tok::Return
    } else if word == "let".to_owned() {
        Tok::Let
    } else if word == "if".to_owned() {
        Tok::If
    } else if word == "while".to_owned() {
        Tok::While
    } else if word == "and".to_owned() {
        Tok::And
    } else if word == "not".to_owned() {
        Tok::Not
    } else if word == "or".to_owned() {
        Tok::Or
    } else {
        Tok::Identifier(word)
    }
}

/// How a token starting with `c` continues.
fn start_state_of(c: char) -> (r: FindTokenStartState)
    ensures
        r == start_state(c),
{
    if c == '(' {
        FindTokenStartState::WholeToken(Tok::LeftParen)
    } else if c == ')' {
        FindTokenStartState::WholeToken(Tok::RightParen)
    } else if c == '{' {
        FindTokenStartState::WholeToken(Tok::LeftBrace)
    } else if c == '}' {
        FindTokenStartState::WholeToken(Tok::RightBrace)
    } else if c == ']' {
        FindTokenStartState::WholeToken(Tok::LeftBracket)
    } else if c == '[' {
        FindTokenStartState::WholeToken(Tok::RightBracket)
    } else if c == ';' {
        FindTokenStartState::WholeToken(Tok::SemiColon)
    } else if c == ',' {
        FindTokenStartState::WholeToken(Tok::Comma)
    } else if c == '&' {
        FindTokenStartState::WholeToken(Tok::Ampersand)
    } else if c == '|' {
        FindTokenStartState::WholeToken(Tok::Pipe)
    } else if c == '^' {
        FindTokenStartState::WholeToken(Tok::Caret)
    } else if c == '+' {
        FindTokenStartState::WholeToken(Tok::Plus)
    } else if c == '-' {
        FindTokenStartState::WholeToken(Tok::Minus)
    } else if c == '~' {
        FindTokenStartState::WholeToken(Tok::Tilde)
    } else if c == '*' {
        FindTokenStartState::WholeToken(Tok::Asterisk)
    } else if c == '%' {
        FindTokenStartState::WholeToken(Tok::Percent)
    } else if c == '/' {
        FindTokenStartState::WholeToken(Tok::ForwardSlash)
    } else if c == '=' || c == '<' || c == '>' || c == '!' {
        FindTokenStartState::PunctuationStart
    } else if '0' <= c && c <= '9' {
        FindTokenStartState::NumberStart
    } else if c == '\'' {
        FindTokenStartState::CharStart
    } else if c == '"' {
        FindTokenStartState::StringStart
    } else if ('a' <= c && c <= 'z') || ('A' <= c && c <= 'Z') || c == '_' {
        FindTokenStartState::IdentifierOrKeyWordStart
    } else {
        FindTokenStartState::Invalid(ErrorKind::IllegalChar(c))
    }
}

} // verus!
