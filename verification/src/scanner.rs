//! The scanner: from source text to tokens.
//!
//! What the scanner finds is stated by `lexemes`: the kinds of the tokens,
//! the span of source text that each was scanned from, and the line of each.
//! `Scanner::scan_tokens` produces tokens that spell those lexemes.

use crate::text::{
    all_digits,
    alphabetic,
    alphanumeric,
    characters,
    collect,
    decimal,
    digit,
    is_digit,
    is_whitespace,
    whitespace,
};
use crate::token::{
    keyword,
    lemma_keyword_kinds,
    lookup_keyword,
    Literal,
    Token,
    TokenType,
    Value,
};
use vstd::prelude::*;

verus! {

/// Why source text could not be scanned.
#[derive(Debug, Clone, Copy, PartialEq, Eq, Structural)]
pub enum LexErrorKind {
    /// The source ended inside a string literal.
    UnterminatedString,
    /// A character that starts no token.
    UnexpectedCharacter(char),
    /// Digits and a point with no digit behind it.
    MalformedNumber,
}

/// A lexical error, with the line that the scanner was on when it met it.
#[derive(Debug, Clone, Copy, PartialEq, Eq, Structural)]
pub struct LexError {
    pub kind: LexErrorKind,
    pub line: u32,
}

/// The classes of characters that the scanner consumes in runs.
pub enum CharClass {
    Digit,
    Alphanumeric,
    /// Everything but a newline: the rest of a comment.
    NotNewline,
}

/// Whether `c` is of the class.
pub open spec fn in_class(class: CharClass, c: char) -> bool {
    match class {
        CharClass::Digit => digit(c),
        CharClass::Alphanumeric => alphanumeric(c),
        CharClass::NotNewline => c != '\n',
    }
}

/// Where the longest run of characters of `class` that starts at `pos` ends.
pub open spec fn run_end(src: Seq<char>, pos: int, class: CharClass) -> int
    decreases src.len() - pos,
{
    if 0 <= pos < src.len() && in_class(class, src[pos]) {
        run_end(src, pos + 1, class)
    } else {
        pos
    }
}

/// Where the string literal whose text starts at `pos` ends: the position
/// behind the first double quote that no backslash stands before. A backslash
/// takes the character behind it with it. `None` if the source ends first.
pub open spec fn string_end(src: Seq<char>, pos: int) -> Option<int>
    decreases src.len() - pos,
{
    if pos < 0 || pos >= src.len() {
        None
    } else if src[pos] == '"' {
        Some(pos + 1)
    } else if src[pos] == '\\' {
        if pos + 1 < src.len() {
            string_end(src, pos + 2)
        } else {
            None
        }
    } else {
        string_end(src, pos + 1)
    }
}

/// The number of newlines in `src[from..to]`.
pub open spec fn newlines(src: Seq<char>, from: int, to: int) -> int
    decreases to - from,
{
    if to <= from {
        0
    } else {
        newlines(src, from, to - 1) + if src[to - 1] == '\n' {
            1int
        } else {
            0int
        }
    }
}

/// What the scanner does at one position of the source.
pub enum Step {
    /// It emits a token of this kind and goes on at `end`, `lines` lines further down.
    Token { kind: TokenType, end: int, lines: int },
    /// It emits nothing and goes on at `end`, `lines` lines further down.
    Skip { end: int, lines: int },
    /// It stops with an error, `lines` lines further down.
    Fail { error: LexErrorKind, lines: int },
}

/// The token of one or two characters at `pos`: `two` if `=` follows, else `one`.
pub open spec fn with_equal(src: Seq<char>, pos: int, one: TokenType, two: TokenType) -> Step {
    if pos + 1 < src.len() && src[pos + 1] == '=' {
        Step::Token { kind: two, end: pos + 2, lines: 0 }
    } else {
        Step::Token { kind: one, end: pos + 1, lines: 0 }
    }
}

/// The number that starts at `pos`: a run of digits, then, if a point
/// follows, the point and a run of one or more digits.
pub open spec fn number_step(src: Seq<char>, pos: int) -> Step {
    let whole = run_end(src, pos, CharClass::Digit);
    if whole < src.len() && src[whole] == '.' {
        let fraction = run_end(src, whole + 1, CharClass::Digit);
        if fraction > whole + 1 {
            Step::Token { kind: TokenType::Number, end: fraction, lines: 0 }
        } else {
            Step::Fail { error: LexErrorKind::MalformedNumber, lines: 0 }
        }
    } else {
        Step::Token { kind: TokenType::Number, end: whole, lines: 0 }
    }
}

/// The word that starts at `pos`: a reserved word, or else an identifier.
pub open spec fn word_step(src: Seq<char>, pos: int) -> Step {
    let end = run_end(src, pos + 1, CharClass::Alphanumeric);
    let kind = match keyword(src.subrange(pos, end)) {
        Some(kind) => kind,
        None => TokenType::Identifier,
    };
    Step::Token { kind, end, lines: 0 }
}

/// What the scanner does at `pos`, a position inside the source.
pub open spec fn step(src: Seq<char>, pos: int) -> Step {
    let c = src[pos];
    let single = |kind: TokenType| Step::Token { kind, end: pos + 1, lines: 0 };
    if c == '(' {
        single(TokenType::LeftParen)
    } else if c == ')' {
        single(TokenType::RightParen)
    } else if c == '{' {
        single(TokenType::LeftBrace)
    } else if c == '}' {
        single(TokenType::RightBrace)
    } else if c == ',' {
        single(TokenType::Comma)
    } else if c == '.' {
        single(TokenType::Dot)
    } else if c == '+' {
        single(TokenType::Plus)
    } else if c == '-' {
        single(TokenType::Minus)
    } else if c == '*' {
        single(TokenType::Star)
    } else if c == ';' {
        single(TokenType::Semicolon)
    } else if c == '!' {
        with_equal(src, pos, TokenType::Bang, TokenType::BangEqual)
    } else if c == '=' {
        with_equal(src, pos, TokenType::Equal, TokenType::EqualEqual)
    } else if c == '<' {
        with_equal(src, pos, TokenType::Less, TokenType::LessEqual)
    } else if c == '>' {
        with_equal(src, pos, TokenType::Greater, TokenType::GreaterEqual)
    } else if c == '/' {
        if pos + 1 < src.len() && src[pos + 1] == '/' {
            Step::Skip { end: run_end(src, pos + 2, CharClass::NotNewline), lines: 0 }
        } else {
            single(TokenType::Slash)
        }
    } else if c == '"' {
        match string_end(src, pos + 1) {
            Some(end) => Step::Token {
                kind: TokenType::StringLiteral,
                end,
                lines: newlines(src, pos + 1, end),
            },
            None => Step::Fail {
                error: LexErrorKind::UnterminatedString,
                lines: newlines(src, pos + 1, src.len() as int),
            },
        }
    } else if digit(c) {
        number_step(src, pos)
    } else if alphabetic(c) {
        word_step(src, pos)
    } else if whitespace(c) {
        Step::Skip {
            end: pos + 1,
            lines: if c == '\n' {
                1
            } else {
                0
            },
        }
    } else {
        Step::Fail { error: LexErrorKind::UnexpectedCharacter(c), lines: 0 }
    }
}

/// A token as the scanner finds it: its kind, the span `start..end` of the
/// source that it was scanned from, and the line that it ends on.
pub struct Lexeme {
    pub kind: TokenType,
    pub start: int,
    pub end: int,
    pub line: int,
}

/// The result of scanning: the lexemes, or the error and its line.
pub type Scanned = Result<Seq<Lexeme>, (LexErrorKind, int)>;

/// `unit` in front of what was scanned behind it.
pub open spec fn prepend(unit: Lexeme, rest: Scanned) -> Scanned {
    match rest {
        Ok(units) => Ok(seq![unit] + units),
        Err(e) => Err(e),
    }
}

/// The lexemes of `src` from `pos` on, the scanner being on `line`. The last
/// of them is the end of input.
pub open spec fn lexemes(src: Seq<char>, pos: int, line: int) -> Scanned
    decreases src.len() - pos,
{
    if pos < 0 || pos >= src.len() {
        Ok(seq![Lexeme { kind: TokenType::Eof, start: pos, end: pos, line }])
    } else {
        proof {
            lemma_step_advances(src, pos);
        }
        match step(src, pos) {
            Step::Token { kind, end, lines } => prepend(
                Lexeme { kind, start: pos, end, line: line + lines },
                lexemes(src, end, line + lines),
            ),
            Step::Skip { end, lines } => lexemes(src, end, line + lines),
            Step::Fail { error, lines } => Err((error, line + lines)),
        }
    }
}

/// A run ends at or behind its start and inside the source, every character
/// of it is of the class, and the character behind it is not.
pub proof fn lemma_run_end(src: Seq<char>, pos: int, class: CharClass)
    requires
        0 <= pos <= src.len(),
    ensures
        pos <= run_end(src, pos, class) <= src.len(),
        forall|i: int| pos <= i < run_end(src, pos, class) ==> in_class(class, #[trigger] src[i]),
        run_end(src, pos, class) < src.len() ==> !in_class(class, src[run_end(src, pos, class)]),
    decreases src.len() - pos,
{
    if pos < src.len() && in_class(class, src[pos]) {
        lemma_run_end(src, pos + 1, class);
    }
}

/// A run ends at the first position from which on it holds that every
/// character before it is of the class and the one at it is not.
pub proof fn lemma_run_stops(src: Seq<char>, pos: int, end: int, class: CharClass)
    requires
        0 <= pos <= end <= src.len(),
        forall|i: int| pos <= i < end ==> in_class(class, #[trigger] src[i]),
        end < src.len() ==> !in_class(class, src[end]),
    ensures
        run_end(src, pos, class) == end,
    decreases end - pos,
{
    if pos < end {
        lemma_run_stops(src, pos + 1, end, class);
    }
}

/// Where a decimal numeral stands in the source, and neither a digit nor a
/// point follows it, the scanner finds a number token that ends with it.
pub proof fn lemma_numeral_step(src: Seq<char>, pos: int, end: int)
    requires
        0 <= pos <= end <= src.len(),
        decimal(src.subrange(pos, end)),
        end < src.len() ==> !digit(src[end]) && src[end] != '.',
    ensures
        pos < end,
        step(src, pos) == (Step::Token { kind: TokenType::Number, end, lines: 0 }),
{
    let text = src.subrange(pos, end);
    assert(forall|i: int| 0 <= i < text.len() ==> text[i] == src[pos + i]);
    if text.len() > 0 && all_digits(text) {
        assert forall|i: int| pos <= i < end implies in_class(
            CharClass::Digit,
            #[trigger] src[i],
        ) by {
            assert(digit(text[i - pos]));
        }
        assert(digit(text[0]));
        lemma_run_stops(src, pos, end, CharClass::Digit);
    } else {
        let point = choose|point: int|
            0 < point < text.len() - 1 && (#[trigger] text[point]) == '.' && all_digits(
                text.take(point),
            ) && all_digits(text.skip(point + 1));
        let whole = text.take(point);
        let fraction = text.skip(point + 1);
        assert forall|i: int| pos <= i < pos + point implies in_class(
            CharClass::Digit,
            #[trigger] src[i],
        ) by {
            assert(digit(whole[i - pos]));
        }
        assert forall|i: int| pos + point + 1 <= i < end implies in_class(
            CharClass::Digit,
            #[trigger] src[i],
        ) by {
            assert(digit(fraction[i - pos - point - 1]));
        }
        assert(digit(whole[0]));
        assert(src[pos + point] == text[point]);
        lemma_run_stops(src, pos, pos + point, CharClass::Digit);
        lemma_run_stops(src, pos + point + 1, end, CharClass::Digit);
    }
}

/// A string literal ends behind the position that its text starts at, and
/// inside the source.
pub proof fn lemma_string_end(src: Seq<char>, pos: int)
    requires
        0 <= pos,
    ensures
        string_end(src, pos) matches Some(end) ==> pos < end <= src.len() && src[end - 1] == '"',
    decreases src.len() - pos,
{
    if pos < src.len() && src[pos] != '"' {
        if src[pos] == '\\' {
            if pos + 1 < src.len() {
                lemma_string_end(src, pos + 2);
            }
        } else {
            lemma_string_end(src, pos + 1);
        }
    }
}

/// There are no more newlines in a span than characters.
pub proof fn lemma_newlines_bound(src: Seq<char>, from: int, to: int)
    ensures
        0 <= newlines(src, from, to),
        from <= to ==> newlines(src, from, to) <= to - from,
        to <= from ==> newlines(src, from, to) == 0,
    decreases to - from,
{
    if to > from {
        lemma_newlines_bound(src, from, to - 1);
    }
}

/// Each step of the scanner consumes at least one character, stays inside the
/// source, and goes down no more lines than it consumes characters.
pub proof fn lemma_step_advances(src: Seq<char>, pos: int)
    requires
        0 <= pos < src.len(),
    ensures
        match step(src, pos) {
            Step::Token { end, lines, .. } => pos < end <= src.len() && 0 <= lines <= end - pos,
            Step::Skip { end, lines } => pos < end <= src.len() && 0 <= lines <= end - pos,
            Step::Fail { lines, .. } => 0 <= lines <= src.len() - pos,
        },
{
    lemma_run_end(src, pos, CharClass::Digit);
    lemma_run_end(src, pos + 1, CharClass::Alphanumeric);
    if pos + 2 <= src.len() {
        lemma_run_end(src, pos + 2, CharClass::NotNewline);
    }
    let whole = run_end(src, pos, CharClass::Digit);
    if whole < src.len() {
        lemma_run_end(src, whole + 1, CharClass::Digit);
    }
    lemma_string_end(src, pos + 1);
    lemma_newlines_bound(src, pos + 1, src.len() as int);
    if let Some(end) = string_end(src, pos + 1) {
        lemma_newlines_bound(src, pos + 1, end);
    }
}

/// Whether `units` are lexemes of a source of `len` characters from `pos`
/// and `line` on: the last is the end of input, at the end of the source, and
/// nothing before it is; no span before it is empty; and the spans and lines
/// lie one behind the other.
pub open spec fn in_order(units: Seq<Lexeme>, pos: int, line: int, len: int) -> bool {
    &&& units.len() > 0
    &&& units.last().kind == TokenType::Eof
    &&& units.last().start == len
    &&& units.last().end == len
    &&& forall|i: int|
        0 <= i < units.len() - 1 ==> (#[trigger] units[i]).kind != TokenType::Eof
            && units[i].start < units[i].end
    &&& forall|i: int|
        0 <= i < units.len() ==> pos <= (#[trigger] units[i]).start <= units[i].end <= len && line
            <= units[i].line
    &&& forall|i: int, j: int|
        0 <= i < j < units.len() ==> (#[trigger] units[i]).end <= (#[trigger] units[j]).start
            && units[i].line <= units[j].line
}

proof fn lemma_in_order_prepend(unit: Lexeme, rest: Seq<Lexeme>, pos: int, line: int, len: int)
    requires
        in_order(rest, unit.end, unit.line, len),
        unit.kind != TokenType::Eof,
        pos <= unit.start < unit.end <= len,
        line <= unit.line,
    ensures
        in_order(seq![unit] + rest, pos, line, len),
{
    let units = seq![unit] + rest;
    assert(units[0] == unit);
    assert(forall|i: int| 1 <= i < units.len() ==> units[i] == rest[i - 1]);
    assert(units.last() == rest.last());
}

/// What was scanned is in order: it ends with the end of input, which nothing
/// else in it is, and its spans lie in the source one behind the other.
pub proof fn lemma_lexemes_in_order(src: Seq<char>, pos: int, line: int)
    requires
        0 <= pos <= src.len(),
    ensures
        lexemes(src, pos, line) matches Ok(units) ==> in_order(
            units,
            pos,
            line,
            src.len() as int,
        ),
    decreases src.len() - pos,
{
    if pos < src.len() {
        lemma_step_advances(src, pos);
        match step(src, pos) {
            Step::Token { kind, end, lines } => {
                lemma_lexemes_in_order(src, end, line + lines);
                if let Ok(rest) = lexemes(src, end, line + lines) {
                    let unit = Lexeme { kind, start: pos, end, line: line + lines };
                    assert(kind != TokenType::Eof) by {
                        lemma_keyword_kinds(src.subrange(pos, end));
                    }
                    lemma_in_order_prepend(unit, rest, pos, line, src.len() as int);
                }
            },
            Step::Skip { end, lines } => {
                lemma_lexemes_in_order(src, end, line + lines);
            },
            Step::Fail { .. } => {},
        }
    }
}

/// How number literals are read, as a relation: whether the number may be
/// read from the text.
pub type Reads = spec_fn(Seq<char>, u64) -> bool;

/// How the executable `f` reads number literals.
pub open spec fn read_by<F: Fn(String) -> u64>(f: F) -> Reads {
    |text: Seq<char>, bits: u64|
        exists|s: String| s@ == text && #[trigger] call_ensures(f, (s,), bits)
}

/// Whether `token` spells `unit`: it has its kind and its line, its lexeme is
/// the text of the span (empty for the end of input), and it carries the
/// value of a number, a string or an identifier, and nothing otherwise. The
/// value of a string is the text between its quotes; the value of a number is
/// what `parse` reads from its lexeme.
pub open spec fn spells(parse: Reads, src: Seq<char>, token: Token, unit: Lexeme) -> bool {
    &&& token.token_type == unit.kind
    &&& token.line == unit.line
    &&& token.lexeme@ == if unit.kind == TokenType::Eof {
        Seq::<char>::empty()
    } else {
        src.subrange(unit.start, unit.end)
    }
    &&& match unit.kind {
        TokenType::Number => token.value() matches Some(Value::Number(bits)) && parse(
            token.lexeme@,
            bits,
        ),
        TokenType::StringLiteral => token.value() == Some(
            Value::Str(src.subrange(unit.start + 1, unit.end - 1)),
        ),
        TokenType::Identifier => token.value() == Some(
            Value::Identifier(src.subrange(unit.start, unit.end)),
        ),
        _ => token.literal is None,
    }
}

/// Whether `tokens` spell `units`, one token for each lexeme.
pub open spec fn spelled(parse: Reads, src: Seq<char>, tokens: Seq<Token>, units: Seq<Lexeme>)
    -> bool {
    &&& tokens.len() == units.len()
    &&& forall|i: int| 0 <= i < tokens.len() ==> spells(parse, src, #[trigger] tokens[i], units[i])
}

/// The tokens that spell what was scanned end with the end of input, and the
/// lexeme of every token before it is a piece of the source that is not
/// empty: the text between two positions of the source. The pieces lie in
/// the source one behind the other.
pub proof fn lemma_lexemes_are_source_text(
    parse: Reads,
    src: Seq<char>,
    pos: int,
    line: int,
    tokens: Seq<Token>,
)
    requires
        0 <= pos <= src.len(),
        lexemes(src, pos, line) matches Ok(units) && spelled(parse, src, tokens, units),
    ensures
        tokens.len() > 0,
        tokens.last().token_type == TokenType::Eof,
        tokens.last().lexeme@ == Seq::<char>::empty(),
        forall|i: int|
            0 <= i < tokens.len() - 1 ==> {
                let unit = lexemes(src, pos, line)->Ok_0[i];
                &&& (#[trigger] tokens[i]).token_type != TokenType::Eof
                &&& pos <= unit.start < unit.end <= src.len()
                &&& tokens[i].lexeme@ == src.subrange(unit.start, unit.end)
                &&& unit.end <= lexemes(src, pos, line)->Ok_0[i + 1].start
            },
{
    lemma_lexemes_in_order(src, pos, line);
    let units = lexemes(src, pos, line)->Ok_0;
    assert(spells(parse, src, tokens.last(), units.last()));
    assert forall|i: int| 0 <= i < tokens.len() - 1 implies {
        let unit = units[i];
        &&& (#[trigger] tokens[i]).token_type != TokenType::Eof
        &&& pos <= unit.start < unit.end <= src.len()
        &&& tokens[i].lexeme@ == src.subrange(unit.start, unit.end)
        &&& unit.end <= units[i + 1].start
    } by {
        assert(spells(parse, src, tokens[i], units[i]));
        assert(units[i].end <= units[i + 1].start);
    }
}

/// The scanner: the source, the tokens found so far, the span of the token
/// that is being scanned, the line, and the reader of number literals.
pub struct Scanner<F> {
    pub source: Vec<char>,
    pub tokens: Vec<Token>,
    pub start: usize,
    pub current: usize,
    pub line: u32,
    /// Turns a decimal numeral into the binary64 encoding of the nearest number.
    pub parse_number: F,
}

impl<F: Fn(String) -> u64> Scanner<F> {
    /// A scanner at the start of `source_code`, on line 1, with no tokens yet.
    pub fn new(source_code: &str, parse_number: F) -> (s: Self)
        ensures
            s.source@ == source_code@,
            s.tokens@ == Seq::<Token>::empty(),
            s.start == 0,
            s.current == 0,
            s.line == 1,
            s.parse_number == parse_number,
    {
        Scanner {
            source: characters(source_code),
            tokens: Vec::new(),
            start: 0,
            current: 0,
            line: 1,
            parse_number,
        }
    }

    /// How the scanner reads number literals.
    pub open spec fn reads(&self) -> Reads {
        read_by(self.parse_number)
    }

    /// The reader of number literals accepts every decimal numeral.
    pub open spec fn ready(&self) -> bool {
        forall|text: String| decimal(text@) ==> call_requires(self.parse_number, (text,))
    }

    /// The scanner works on the same source with the same reader as `other`.
    pub open spec fn same_input(&self, other: &Self) -> bool {
        self.source == other.source && self.parse_number == other.parse_number
    }

    /// The line number cannot overflow on what is left of the source.
    pub open spec fn line_fits(&self) -> bool {
        self.current <= self.source@.len() ==> self.line + (self.source@.len() - self.current)
            <= u32::MAX
    }

    /// Scans the source from the current position to its end and appends the
    /// tokens, the last of which is the end of input. On an error the scanner
    /// is left as it was.
    pub fn scan_tokens(&mut self) -> (r: Result<(), LexError>)
        requires
            old(self).ready(),
            old(self).line_fits(),
        ensures
            final(self).same_input(old(self)),
            match lexemes(old(self).source@, old(self).current as int, old(self).line as int) {
                Ok(units) => {
                    &&& r is Ok
                    &&& final(self).tokens@.len() == old(self).tokens@.len() + units.len()
                    &&& final(self).tokens@.take(old(self).tokens@.len() as int) == old(
                        self,
                    ).tokens@
                    &&& spelled(
                        old(self).reads(),
                        old(self).source@,
                        final(self).tokens@.skip(old(self).tokens@.len() as int),
                        units,
                    )
                    &&& final(self).current == units.last().end
                    &&& final(self).start == final(self).current
                    &&& final(self).line == units.last().line
                },
                Err((kind, line)) => {
                    &&& r == Err::<(), LexError>(LexError { kind, line: line as u32 })
                    &&& line <= u32::MAX
                    &&& final(self).tokens@ == old(self).tokens@
                    &&& final(self).start == old(self).start
                    &&& final(self).current == old(self).current
                    &&& final(self).line == old(self).line
                },
            },
    {
        let kept: usize = self.tokens.len();
        let start: usize = self.start;
        let current: usize = self.current;
        let line: u32 = self.line;
        let ghost src = self.source@;
        let ghost before = self.tokens@;
        let ghost mut done: Seq<Lexeme> = Seq::empty();
        while self.current < self.source.len()
            invariant
                self.same_input(old(self)),
                self.ready(),
                self.line_fits(),
                src == self.source@,
                before == old(self).tokens@,
                kept == before.len(),
                start == old(self).start,
                current == old(self).current,
                line == old(self).line,
                current <= self.current,
                line <= self.line,
                self.tokens@.len() == kept + done.len(),
                self.tokens@.take(kept as int) == before,
                forall|i: int|
                    kept <= i < self.tokens@.len() ==> spells(
                        self.reads(),
                        src,
                        #[trigger] self.tokens@[i],
                        done[i - kept],
                    ),
                lexemes(src, current as int, line as int) == match lexemes(
                    src,
                    self.current as int,
                    self.line as int,
                ) {
                    Ok(rest) => Ok::<Seq<Lexeme>, (LexErrorKind, int)>(done + rest),
                    Err(e) => Err(e),
                },
            decreases self.source.len() - self.current,
        {
            self.start = self.current;
            let ghost here: int = self.current as int;
            let ghost on: int = self.line as int;
            let ghost had = self.tokens@;
            proof {
                lemma_step_advances(src, here);
            }
            match self.scan_token() {
                Ok(()) => {
                    proof {
                        match step(src, here) {
                            Step::Token { kind, end, lines } => {
                                let unit = Lexeme { kind, start: here, end, line: on + lines };
                                let grown = done.push(unit);
                                match lexemes(src, end, on + lines) {
                                    Ok(rest) => {
                                        assert(done + (seq![unit] + rest) == grown + rest);
                                    },
                                    Err(e) => {},
                                }
                                assert(self.tokens@.take(kept as int) == had.take(kept as int));
                                assert forall|i: int|
                                    kept <= i < self.tokens@.len() implies spells(
                                    self.reads(),
                                    src,
                                    #[trigger] self.tokens@[i],
                                    grown[i - kept],
                                ) by {
                                    if i < had.len() {
                                        assert(self.tokens@[i] == self.tokens@.take(
                                            had.len() as int,
                                        )[i]);
                                    }
                                }
                                done = grown;
                            },
                            Step::Skip { end, lines } => {},
                            Step::Fail { .. } => {},
                        }
                    }
                },
                Err(e) => {
                    self.tokens.truncate(kept);
                    self.start = start;
                    self.current = current;
                    self.line = line;
                    proof {
                        assert(had.take(kept as int) == before);
                        assert(self.tokens@ == before);
                    }
                    return Err(e);
                },
            }
        }
        self.start = self.current;
        let ghost had = self.tokens@;
        let ghost last = Lexeme {
            kind: TokenType::Eof,
            start: self.current as int,
            end: self.current as int,
            line: self.line as int,
        };
        self.tokens.push(Token::new(TokenType::Eof, String::new(), None, self.line));
        proof {
            let units = done.push(last);
            assert(done + seq![last] == units);
            assert(lexemes(src, current as int, line as int) == Ok::<
                Seq<Lexeme>,
                (LexErrorKind, int),
            >(units));
            assert(self.tokens@.take(kept as int) == had.take(kept as int));
            assert forall|i: int| kept <= i < self.tokens@.len() implies spells(
                self.reads(),
                src,
                #[trigger] self.tokens@[i],
                units[i - kept],
            ) by {
                if i < had.len() {
                    assert(self.tokens@[i] == had[i]);
                }
            }
            let found = self.tokens@.skip(kept as int);
            assert forall|i: int| 0 <= i < found.len() implies spells(
                self.reads(),
                src,
                #[trigger] found[i],
                units[i],
            ) by {
                assert(found[i] == self.tokens@[kept + i]);
            }
        }
        Ok(())
    }

    /// Scans what stands at the current position: one token, or text that
    /// yields none.
    fn scan_token(&mut self) -> (r: Result<(), LexError>)
        requires
            old(self).ready(),
            old(self).line_fits(),
            old(self).start == old(self).current,
            old(self).current < old(self).source@.len(),
        ensures
            final(self).same_input(old(self)),
            r is Ok ==> final(self).line_fits(),
            final(self).tokens@.len() >= old(self).tokens@.len(),
            final(self).tokens@.take(old(self).tokens@.len() as int) == old(self).tokens@,
            match step(old(self).source@, old(self).current as int) {
                Step::Token { kind, end, lines } => {
                    &&& r is Ok
                    &&& final(self).current == end
                    &&& final(self).line == old(self).line + lines
                    &&& final(self).tokens@.len() == old(self).tokens@.len() + 1
                    &&& spells(
                        old(self).reads(),
                        old(self).source@,
                        final(self).tokens@.last(),
                        Lexeme {
                            kind,
                            start: old(self).current as int,
                            end,
                            line: old(self).line + lines,
                        },
                    )
                },
                Step::Skip { end, lines } => {
                    &&& r is Ok
                    &&& final(self).current == end
                    &&& final(self).line == old(self).line + lines
                    &&& final(self).tokens@ == old(self).tokens@
                },
                Step::Fail { error, lines } => {
                    &&& old(self).line + lines <= u32::MAX
                    &&& r == Err::<(), LexError>(
                        LexError { kind: error, line: (old(self).line + lines) as u32 },
                    )
                },
            },
    {
        let ghost src = self.source@;
        let ghost pos: int = self.current as int;
        proof {
            lemma_step_advances(src, pos);
        }
        let len: usize = self.source.len();
        let c = self.source[self.current];
        self.current += 1;
        if c == '(' {
            self.add_token(TokenType::LeftParen, None);
        } else if c == ')' {
            self.add_token(TokenType::RightParen, None);
        } else if c == '{' {
            self.add_token(TokenType::LeftBrace, None);
        } else if c == '}' {
            self.add_token(TokenType::RightBrace, None);
        } else if c == ',' {
            self.add_token(TokenType::Comma, None);
        } else if c == '.' {
            self.add_token(TokenType::Dot, None);
        } else if c == '+' {
            self.add_token(TokenType::Plus, None);
        } else if c == '-' {
            self.add_token(TokenType::Minus, None);
        } else if c == '*' {
            self.add_token(TokenType::Star, None);
        } else if c == ';' {
            self.add_token(TokenType::Semicolon, None);
        } else if c == '!' {
            if self.is_next('=') {
                self.add_token(TokenType::BangEqual, None);
            } else {
                self.add_token(TokenType::Bang, None);
            }
        } else if c == '=' {
            if self.is_next('=') {
                self.add_token(TokenType::EqualEqual, None);
            } else {
                self.add_token(TokenType::Equal, None);
            }
        } else if c == '<' {
            if self.is_next('=') {
                self.add_token(TokenType::LessEqual, None);
            } else {
                self.add_token(TokenType::Less, None);
            }
        } else if c == '>' {
            if self.is_next('=') {
                self.add_token(TokenType::GreaterEqual, None);
            } else {
                self.add_token(TokenType::Greater, None);
            }
        } else if c == '/' {
            if self.is_next('/') {
                while self.current < self.source.len() && self.source[self.current] != '\n'
                    invariant
                        self.same_input(old(self)),
                        src == self.source@,
                        self.tokens == old(self).tokens,
                        self.line == old(self).line,
                        self.start == old(self).start,
                        pos + 2 <= self.current <= src.len(),
                        run_end(src, self.current as int, CharClass::NotNewline) == run_end(
                            src,
                            pos + 2,
                            CharClass::NotNewline,
                        ),
                    decreases src.len() - self.current,
                {
                    self.current += 1;
                }
            } else {
                self.add_token(TokenType::Slash, None);
            }
        } else if c == '"' {
            let text = self.string()?;
            proof {
                lemma_string_end(src, pos + 1);
            }
            self.add_token(TokenType::StringLiteral, Some(Literal::Str(text)));
        } else if is_digit(c) {
            let number: u64 = self.number()?;
            self.add_token(TokenType::Number, Some(Literal::Number(number)));
        } else if c.is_alphabetic() {
            let identifier = self.identifier();
            match lookup_keyword(&identifier) {
                Some(keyword_type) => {
                    proof {
                        lemma_keyword_kinds(identifier@);
                    }
                    self.add_token(keyword_type, None);
                },
                None => {
                    self.add_token(TokenType::Identifier, Some(Literal::Identifier(identifier)));
                },
            }
        } else if is_whitespace(c) {
            if c == '\n' {
                self.line += 1;
            }
        } else {
            return Err(LexError { kind: LexErrorKind::UnexpectedCharacter(c), line: self.line });
        }
        Ok(())
    }

    /// Appends a token whose lexeme is the text between `start` and `current`.
    fn add_token(&mut self, token_type: TokenType, literal: Option<Literal>)
        requires
            old(self).start <= old(self).current <= old(self).source@.len(),
        ensures
            final(self).same_input(old(self)),
            final(self).start == old(self).start,
            final(self).current == old(self).current,
            final(self).line == old(self).line,
            final(self).tokens@.len() == old(self).tokens@.len() + 1,
            final(self).tokens@.take(old(self).tokens@.len() as int) == old(self).tokens@,
            final(self).tokens@.last().token_type == token_type,
            final(self).tokens@.last().lexeme@ == old(self).source@.subrange(
                old(self).start as int,
                old(self).current as int,
            ),
            final(self).tokens@.last().literal == literal,
            final(self).tokens@.last().line == old(self).line,
    {
        let text = collect(&self.source, self.start, self.current);
        self.tokens.push(Token::new(token_type, text, literal, self.line));
        assert(self.tokens@.take(old(self).tokens@.len() as int) == old(self).tokens@);
    }

    /// Consumes the next character if it is `expected`.
    fn is_next(&mut self, expected: char) -> (r: bool)
        ensures
            final(self).same_input(old(self)),
            final(self).tokens == old(self).tokens,
            final(self).start == old(self).start,
            final(self).line == old(self).line,
            r == (old(self).current < old(self).source@.len() && old(self).source@[old(
                self,
            ).current as int] == expected),
            final(self).current == if r {
                old(self).current + 1
            } else {
                old(self).current as int
            },
    {
        if self.current >= self.source.len() {
            return false;
        }
        if self.source[self.current] == expected {
            self.current += 1;
            return true;
        }
        return false;
    }

    /// Consumes a string literal whose opening quote has been consumed, and
    /// returns the text between the quotes.
    fn string(&mut self) -> (r: Result<String, LexError>)
        requires
            old(self).line_fits(),
            old(self).start < old(self).current <= old(self).source@.len(),
            old(self).current == old(self).start + 1,
        ensures
            final(self).same_input(old(self)),
            final(self).tokens == old(self).tokens,
            final(self).start == old(self).start,
            r is Ok ==> final(self).line_fits(),
            match string_end(old(self).source@, old(self).current as int) {
                Some(end) => {
                    &&& r matches Ok(text)
                    &&& text@ == old(self).source@.subrange(old(self).current as int, end - 1)
                    &&& final(self).current == end
                    &&& final(self).line == old(self).line + newlines(
                        old(self).source@,
                        old(self).current as int,
                        end,
                    )
                },
                None => {
                    let line = old(self).line + newlines(
                        old(self).source@,
                        old(self).current as int,
                        old(self).source@.len() as int,
                    );
                    &&& line <= u32::MAX
                    &&& r == Err::<String, LexError>(
                        LexError { kind: LexErrorKind::UnterminatedString, line: line as u32 },
                    )
                },
            },
    {
        let ghost src = self.source@;
        let ghost from: int = self.current as int;
        loop
            invariant_except_break
                self.same_input(old(self)),
                src == self.source@,
                from == old(self).current,
                self.tokens == old(self).tokens,
                self.start == old(self).start,
                self.line_fits(),
                from <= self.current <= src.len(),
                string_end(src, self.current as int) == string_end(src, from),
                self.line == old(self).line + newlines(src, from, self.current as int),
            ensures
                from < self.current <= src.len(),
                string_end(src, from) == Some(self.current as int),
                self.line == old(self).line + newlines(src, from, self.current as int),
                self.same_input(old(self)),
                src == self.source@,
                self.tokens == old(self).tokens,
                self.start == old(self).start,
                self.line_fits(),
            decreases src.len() - self.current,
        {
            if self.is_next('"') {
                break ;
            }
            if self.current >= self.source.len() {
                return Err(LexError { kind: LexErrorKind::UnterminatedString, line: self.line });
            }
            if self.source[self.current] == '\\' {
                if self.current + 1 >= self.source.len() {
                    proof {
                        assert(newlines(src, from, src.len() as int) == newlines(
                            src,
                            from,
                            self.current as int,
                        ));
                    }
                    return Err(
                        LexError { kind: LexErrorKind::UnterminatedString, line: self.line },
                    );
                }
                self.current += 1;
                assert(newlines(src, from, self.current as int) == newlines(
                    src,
                    from,
                    self.current - 1,
                ));
            }
            if self.source[self.current] == '\n' {
                self.line += 1;
            }
            self.current += 1;
        }
        Ok(collect(&self.source, self.start + 1, self.current - 1))
    }

    /// Consumes the rest of a number whose first digit has been consumed, and
    /// returns what the reader of number literals makes of its text.
    fn number(&mut self) -> (r: Result<u64, LexError>)
        requires
            old(self).ready(),
            old(self).start < old(self).source@.len(),
            old(self).current == old(self).start + 1,
            digit(old(self).source@[old(self).start as int]),
        ensures
            final(self).same_input(old(self)),
            final(self).tokens == old(self).tokens,
            final(self).start == old(self).start,
            final(self).line == old(self).line,
            match number_step(old(self).source@, old(self).start as int) {
                Step::Token { end, .. } => {
                    &&& r matches Ok(bits)
                    &&& final(self).current == end
                    &&& old(self).start < end <= old(self).source@.len()
                    &&& old(self).reads()(
                        old(self).source@.subrange(old(self).start as int, end),
                        bits,
                    )
                },
                _ => r == Err::<u64, LexError>(
                    LexError { kind: LexErrorKind::MalformedNumber, line: old(self).line },
                ),
            },
    {
        let ghost src = self.source@;
        let ghost first: int = self.start as int;
        while self.current < self.source.len() && is_digit(self.source[self.current])
            invariant
                self.same_input(old(self)),
                src == self.source@,
                self.tokens == old(self).tokens,
                self.start == old(self).start,
                self.line == old(self).line,
                first < self.current <= src.len(),
                run_end(src, self.current as int, CharClass::Digit) == run_end(
                    src,
                    first,
                    CharClass::Digit,
                ),
            decreases src.len() - self.current,
        {
            self.current += 1;
        }
        let ghost whole: int = self.current as int;
        proof {
            lemma_run_end(src, first, CharClass::Digit);
        }
        if self.current < self.source.len() && self.source[self.current] == '.' {
            let point: usize = self.current;
            self.current += 1;
            while self.current < self.source.len() && is_digit(self.source[self.current])
                invariant
                    self.same_input(old(self)),
                    src == self.source@,
                    self.tokens == old(self).tokens,
                    self.start == old(self).start,
                    self.line == old(self).line,
                    whole < self.current <= src.len(),
                    run_end(src, self.current as int, CharClass::Digit) == run_end(
                        src,
                        whole + 1,
                        CharClass::Digit,
                    ),
                decreases src.len() - self.current,
            {
                self.current += 1;
            }
            proof {
                lemma_run_end(src, whole + 1, CharClass::Digit);
            }
            if self.current == point + 1 {
                return Err(LexError { kind: LexErrorKind::MalformedNumber, line: self.line });
            }
        }
        let text = collect(&self.source, self.start, self.current);
        proof {
            let end: int = self.current as int;
            if whole == end {
                assert(text@.len() > 0 && all_digits(text@));
            } else {
                let point: int = whole - first;
                assert(text@[point] == '.');
                assert(all_digits(text@.take(point)));
                assert(all_digits(text@.skip(point + 1)));
            }
            assert(decimal(text@));
        }
        let bits: u64 = (self.parse_number)(text.clone());
        Ok(bits)
    }

    /// Consumes the rest of a word whose first character has been consumed,
    /// and returns the word.
    fn identifier(&mut self) -> (r: String)
        requires
            old(self).start < old(self).source@.len(),
            old(self).current == old(self).start + 1,
        ensures
            final(self).same_input(old(self)),
            final(self).tokens == old(self).tokens,
            final(self).start == old(self).start,
            final(self).line == old(self).line,
            final(self).current == run_end(
                old(self).source@,
                old(self).current as int,
                CharClass::Alphanumeric,
            ),
            old(self).current <= final(self).current <= old(self).source@.len(),
            r@ == old(self).source@.subrange(old(self).start as int, final(self).current as int),
    {
        let ghost src = self.source@;
        let ghost from: int = self.current as int;
        while self.current < self.source.len() && self.source[self.current].is_alphanumeric()
            invariant
                self.same_input(old(self)),
                src == self.source@,
                self.tokens == old(self).tokens,
                self.start == old(self).start,
                self.line == old(self).line,
                from <= self.current <= src.len(),
                run_end(src, self.current as int, CharClass::Alphanumeric) == run_end(
                    src,
                    from,
                    CharClass::Alphanumeric,
                ),
            decreases src.len() - self.current,
        {
            self.current += 1;
        }
        collect(&self.source, self.start, self.current)
    }
}

} // verus!
