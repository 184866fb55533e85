//! The token model: token kinds, literal values, tokens and the table of
//! reserved words.

use crate::number;
use vstd::prelude::*;
use vstd::string::StringExecFns;

verus! {

/// The kind of a token.
#[derive(Debug, Clone, Copy, PartialEq, Eq, Structural)]
pub enum TokenType {
    // Single-character tokens.
    LeftParen,
    RightParen,
    LeftBrace,
    RightBrace,
    Comma,
    Dot,
    Minus,
    Plus,
    Semicolon,
    Slash,
    Star,
    // One or two character tokens.
    Bang,
    BangEqual,
    Equal,
    EqualEqual,
    Greater,
    GreaterEqual,
    Less,
    LessEqual,
    // Literals.
    Identifier,
    StringLiteral,
    Number,
    // Keywords.
    And,
    Class,
    Else,
    False,
    Fun,
    For,
    If,
    Nil,
    Or,
    Print,
    Return,
    Super,
    This,
    True,
    Var,
    While,
    Eof,
}

/// An operator that stands between two operands.
#[derive(Debug, Clone, Copy, PartialEq, Eq, Structural)]
pub enum BinaryOperator {
    Add,
    Subtract,
    Multiply,
    Divide,
    Equal,
    NotEqual,
    Greater,
    GreaterEqual,
    Less,
    LessEqual,
    And,
    Or,
}

impl TokenType {
    /// The binary operator that a token kind spells, if it spells one.
    pub open spec fn binary_operator(self) -> Option<BinaryOperator> {
        match self {
            TokenType::Plus => Some(BinaryOperator::Add),
            TokenType::Minus => Some(BinaryOperator::Subtract),
            TokenType::Star => Some(BinaryOperator::Multiply),
            TokenType::Slash => Some(BinaryOperator::Divide),
            TokenType::EqualEqual => Some(BinaryOperator::Equal),
            TokenType::BangEqual => Some(BinaryOperator::NotEqual),
            TokenType::Greater => Some(BinaryOperator::Greater),
            TokenType::GreaterEqual => Some(BinaryOperator::GreaterEqual),
            TokenType::Less => Some(BinaryOperator::Less),
            TokenType::LessEqual => Some(BinaryOperator::LessEqual),
            TokenType::And => Some(BinaryOperator::And),
            TokenType::Or => Some(BinaryOperator::Or),
            _ => None,
        }
    }

    /// The binary operator that the kind spells, if it spells one.
    pub fn as_binary_operator(&self) -> (r: Option<BinaryOperator>)
        ensures
            r == self.binary_operator(),
    {
        match self {
            TokenType::Plus => Some(BinaryOperator::Add),
            TokenType::Minus => Some(BinaryOperator::Subtract),
            TokenType::Star => Some(BinaryOperator::Multiply),
            TokenType::Slash => Some(BinaryOperator::Divide),
            TokenType::EqualEqual => Some(BinaryOperator::Equal),
            TokenType::BangEqual => Some(BinaryOperator::NotEqual),
            TokenType::Greater => Some(BinaryOperator::Greater),
            TokenType::GreaterEqual => Some(BinaryOperator::GreaterEqual),
            TokenType::Less => Some(BinaryOperator::Less),
            TokenType::LessEqual => Some(BinaryOperator::LessEqual),
            TokenType::And => Some(BinaryOperator::And),
            TokenType::Or => Some(BinaryOperator::Or),
            _ => None,
        }
    }

    /// The kinds that may stand before an operand: `!` and `-`.
    pub open spec fn prefix(self) -> bool {
        self == TokenType::Bang || self == TokenType::Minus
    }

    /// The kinds that may stand between two operands: the operators of
    /// arithmetic, comparison and equality.
    pub open spec fn infix(self) -> bool {
        self == TokenType::Minus || self == TokenType::Plus || self == TokenType::Slash || self
            == TokenType::Star || self == TokenType::Greater || self == TokenType::GreaterEqual
            || self == TokenType::Less || self == TokenType::LessEqual || self
            == TokenType::BangEqual || self == TokenType::EqualEqual
    }

    /// Tells whether the kind may stand before an operand.
    pub fn is_prefix(&self) -> (r: bool)
        ensures
            r == self.prefix(),
    {
        match self {
            TokenType::Bang | TokenType::Minus => true,
            _ => false,
        }
    }

    /// Tells whether the kind may stand between two operands.
    pub fn is_infix(&self) -> (r: bool)
        ensures
            r == self.infix(),
    {
        match self {
            TokenType::Minus
            | TokenType::Plus
            | TokenType::Slash
            | TokenType::Star
            | TokenType::Greater
            | TokenType::GreaterEqual
            | TokenType::Less
            | TokenType::LessEqual
            | TokenType::BangEqual
            | TokenType::EqualEqual => true,
            _ => false,
        }
    }
}

/// Which variant a value is, without its payload.
#[derive(Debug, Clone, Copy, PartialEq, Eq, Structural)]
pub enum ValueKind {
    Identifier,
    Str,
    Number,
    Boolean,
    Nil,
}

/// A value as contracts see it: text is a sequence of characters, and a number
/// is its binary64 encoding.
pub enum Value {
    Identifier(Seq<char>),
    Str(Seq<char>),
    Number(u64),
    Boolean(bool),
    Nil,
}

impl Value {
    /// Which variant the value is.
    pub open spec fn kind(self) -> ValueKind {
        match self {
            Value::Identifier(_) => ValueKind::Identifier,
            Value::Str(_) => ValueKind::Str,
            Value::Number(_) => ValueKind::Number,
            Value::Boolean(_) => ValueKind::Boolean,
            Value::Nil => ValueKind::Nil,
        }
    }

    /// Equality of values: the same variant with an equal payload. Numbers are
    /// equal as numbers are, so a NaN equals nothing and the two zeros are equal.
    pub open spec fn same(self, other: Value) -> bool {
        match (self, other) {
            (Value::Identifier(a), Value::Identifier(b)) => a == b,
            (Value::Str(a), Value::Str(b)) => a == b,
            (Value::Number(a), Value::Number(b)) => number::equal(a, b),
            (Value::Boolean(a), Value::Boolean(b)) => a == b,
            (Value::Nil, Value::Nil) => true,
            _ => false,
        }
    }

    /// Everything is truthy but `Nil` and `Boolean(false)`.
    pub open spec fn truthy(self) -> bool {
        match self {
            Value::Nil => false,
            Value::Boolean(b) => b,
            _ => true,
        }
    }
}

/// A literal value of the language, which is also what an expression evaluates to.
#[derive(Debug)]
pub enum Literal {
    Identifier(String),
    Str(String),
    /// A number, by its binary64 encoding.
    Number(u64),
    Boolean(bool),
    Nil,
}

impl View for Literal {
    type V = Value;

    open spec fn view(&self) -> Value {
        match self {
            Literal::Identifier(s) => Value::Identifier(s@),
            Literal::Str(s) => Value::Str(s@),
            Literal::Number(bits) => Value::Number(*bits),
            Literal::Boolean(b) => Value::Boolean(*b),
            Literal::Nil => Value::Nil,
        }
    }
}

impl Clone for Literal {
    fn clone(&self) -> (r: Self)
        ensures
            r == *self,
    {
        match self {
            Literal::Identifier(s) => Literal::Identifier(s.clone()),
            Literal::Str(s) => Literal::Str(s.clone()),
            Literal::Number(bits) => Literal::Number(*bits),
            Literal::Boolean(b) => Literal::Boolean(*b),
            Literal::Nil => Literal::Nil,
        }
    }
}

impl PartialEq for Literal {
    fn eq(&self, other: &Self) -> (r: bool) {
        match self {
            Literal::Identifier(a) => match other {
                Literal::Identifier(b) => *a == *b,
                _ => false,
            },
            Literal::Str(a) => match other {
                Literal::Str(b) => *a == *b,
                _ => false,
            },
            Literal::Number(a) => match other {
                Literal::Number(b) => number::is_equal(*a, *b),
                _ => false,
            },
            Literal::Boolean(a) => match other {
                Literal::Boolean(b) => *a == *b,
                _ => false,
            },
            Literal::Nil => match other {
                Literal::Nil => true,
                _ => false,
            },
        }
    }
}

impl vstd::std_specs::cmp::PartialEqSpecImpl for Literal {
    open spec fn obeys_eq_spec() -> bool {
        true
    }

    open spec fn eq_spec(&self, other: &Self) -> bool {
        self@.same(other@)
    }
}

impl Literal {
    /// Which variant the value is.
    pub fn kind(&self) -> (r: ValueKind)
        ensures
            r == self@.kind(),
    {
        match self {
            Literal::Identifier(_) => ValueKind::Identifier,
            Literal::Str(_) => ValueKind::Str,
            Literal::Number(_) => ValueKind::Number,
            Literal::Boolean(_) => ValueKind::Boolean,
            Literal::Nil => ValueKind::Nil,
        }
    }
}

/// How numbers are printed, as a relation: whether the text may be printed
/// for the number.
pub type Prints = spec_fn(u64, Seq<char>) -> bool;

/// How the executable `f` prints numbers.
pub open spec fn printed_by<F: Fn(u64) -> String>(f: F) -> Prints {
    |bits: u64, text: Seq<char>|
        exists|s: String| s@ == text && #[trigger] call_ensures(f, (bits,), s)
}

/// Whether `text` is a printing of `value`, numbers printed as `format`
/// says: `Identifier(name)` for an identifier, a string in double quotes, a
/// number as `format` prints it, `true`, `false` or `nil`.
pub open spec fn literal_text(format: Prints, value: Value, text: Seq<char>) -> bool {
    match value {
        Value::Identifier(name) => text == "Identifier("@ + name + ")"@,
        Value::Str(s) => text == "\""@ + s + "\""@,
        Value::Number(bits) => format(bits, text),
        Value::Boolean(b) => text == if b {
            "true"@
        } else {
            "false"@
        },
        Value::Nil => text == "nil"@,
    }
}

/// A way of printing numbers that is a function: the text of each number.
pub type Format = spec_fn(u64) -> Seq<char>;

/// How numbers are printed where `format` gives the text of each.
pub open spec fn printed_as(format: Format) -> Prints {
    |bits: u64, text: Seq<char>| text == format(bits)
}

/// The printing of `value`, numbers printed as `format` says.
pub open spec fn literal_printing(format: Format, value: Value) -> Seq<char> {
    match value {
        Value::Identifier(name) => "Identifier("@ + name + ")"@,
        Value::Str(s) => "\""@ + s + "\""@,
        Value::Number(bits) => format(bits),
        Value::Boolean(b) => if b {
            "true"@
        } else {
            "false"@
        },
        Value::Nil => "nil"@,
    }
}

/// Where the printing of numbers is a function, a value has one printing.
pub proof fn lemma_literal_printing(format: Format, value: Value, text: Seq<char>)
    ensures
        literal_text(printed_as(format), value, text) <==> text == literal_printing(format, value),
{
}

impl Literal {
    /// The value as text, a number printed by `format_number`.
    pub fn to_text<F: Fn(u64) -> String>(&self, format_number: &F) -> (r: String)
        requires
            forall|bits: u64| call_requires(*format_number, (bits,)),
        ensures
            literal_text(printed_by(*format_number), self@, r@),
    {
        match self {
            Literal::Identifier(s) => {
                let mut text = String::from_str("Identifier(");
                text.append(s.as_str());
                text.append(")");
                text
            },
            Literal::Str(s) => {
                let mut text = String::from_str("\"");
                text.append(s.as_str());
                text.append("\"");
                text
            },
            Literal::Number(n) => format_number(*n),
            Literal::Boolean(b) => {
                if *b {
                    String::from_str("true")
                } else {
                    String::from_str("false")
                }
            },
            Literal::Nil => String::from_str("nil"),
        }
    }
}

/// Two values of different variants are never equal.
pub proof fn lemma_equal_values_have_one_kind(a: Value, b: Value)
    requires
        a.kind() != b.kind(),
    ensures
        !a.same(b),
{
}

/// Equality of values is symmetric, and every value but a NaN equals itself.
pub proof fn lemma_value_equality(a: Value, b: Value)
    ensures
        a.same(b) == b.same(a),
        a.same(a) == !(a matches Value::Number(bits) && number::nan(bits)),
{
}

/// A classified piece of source text.
#[derive(Debug)]
pub struct Token {
    pub token_type: TokenType,
    /// The source text that the token was scanned from.
    pub lexeme: String,
    /// The value of a number, string or identifier token.
    pub literal: Option<Literal>,
    /// The source line that the token ends on.
    pub line: u32,
}

impl Token {
    /// A token of the given kind, lexeme, value and line.
    pub fn new(token_type: TokenType, lexeme: String, literal: Option<Literal>, line: u32) -> (t:
        Self)
        ensures
            t == (Token { token_type, lexeme, literal, line }),
    {
        Token { token_type, lexeme, literal, line }
    }

    /// The value that the token carries, as contracts see it.
    pub open spec fn value(&self) -> Option<Value> {
        match self.literal {
            Some(l) => Some(l@),
            None => None,
        }
    }
}

impl Clone for Token {
    fn clone(&self) -> (r: Self)
        ensures
            r == *self,
    {
        let literal = match &self.literal {
            Some(l) => Some(l.clone()),
            None => None,
        };
        Token { token_type: self.token_type, lexeme: self.lexeme.clone(), literal, line: self.line }
    }
}

impl PartialEq for Token {
    fn eq(&self, other: &Self) -> (r: bool) {
        let literals = match &self.literal {
            Some(a) => match &other.literal {
                Some(b) => *a == *b,
                None => false,
            },
            None => match &other.literal {
                Some(_) => false,
                None => true,
            },
        };
        self.token_type == other.token_type && self.lexeme == other.lexeme && literals && self.line
            == other.line
    }
}

impl vstd::std_specs::cmp::PartialEqSpecImpl for Token {
    open spec fn obeys_eq_spec() -> bool {
        true
    }

    open spec fn eq_spec(&self, other: &Self) -> bool {
        &&& self.token_type == other.token_type
        &&& self.lexeme@ == other.lexeme@
        &&& match (self.value(), other.value()) {
            (Some(a), Some(b)) => a.same(b),
            (None, None) => true,
            _ => false,
        }
        &&& self.line == other.line
    }
}

/// The reserved words and the token kind of each.
pub open spec fn keywords() -> Map<Seq<char>, TokenType> {
    map![
        "and"@ => TokenType::And,
        "or"@ => TokenType::Or,
        "nil"@ => TokenType::Nil,
        "class"@ => TokenType::Class,
        "for"@ => TokenType::For,
        "while"@ => TokenType::While,
        "var"@ => TokenType::Var,
        "fun"@ => TokenType::Fun,
        "if"@ => TokenType::If,
        "else"@ => TokenType::Else,
        "print"@ => TokenType::Print,
        "return"@ => TokenType::Return,
        "super"@ => TokenType::Super,
        "this"@ => TokenType::This,
        "true"@ => TokenType::True,
        "false"@ => TokenType::False,
    ]
}

/// The token kind of `text` if it is a reserved word.
pub open spec fn keyword(text: Seq<char>) -> Option<TokenType> {
    if keywords().contains_key(text) {
        Some(keywords()[text])
    } else {
        None
    }
}

/// Whether `text` is the word.
fn spells(text: &String, word: &str) -> (r: bool)
    ensures
        r == (text@ == word@),
{
    *text == String::from_str(word)
}

/// The table read as a chain of comparisons.
proof fn lemma_keyword_table(text: Seq<char>)
    ensures
        keyword(text) == if text == "and"@ {
            Some(TokenType::And)
        } else if text == "or"@ {
            Some(TokenType::Or)
        } else if text == "nil"@ {
            Some(TokenType::Nil)
        } else if text == "class"@ {
            Some(TokenType::Class)
        } else if text == "for"@ {
            Some(TokenType::For)
        } else if text == "while"@ {
            Some(TokenType::While)
        } else if text == "var"@ {
            Some(TokenType::Var)
        } else if text == "fun"@ {
            Some(TokenType::Fun)
        } else if text == "if"@ {
            Some(TokenType::If)
        } else if text == "else"@ {
            Some(TokenType::Else)
        } else if text == "print"@ {
            Some(TokenType::Print)
        } else if text == "return"@ {
            Some(TokenType::Return)
        } else if text == "super"@ {
            Some(TokenType::Super)
        } else if text == "this"@ {
            Some(TokenType::This)
        } else if text == "true"@ {
            Some(TokenType::True)
        } else if text == "false"@ {
            Some(TokenType::False)
        } else {
            None
        },
{
    reveal_strlit("and");
    reveal_strlit("or");
    reveal_strlit("nil");
    reveal_strlit("class");
    reveal_strlit("for");
    reveal_strlit("while");
    reveal_strlit("var");
    reveal_strlit("fun");
    reveal_strlit("if");
    reveal_strlit("else");
    reveal_strlit("print");
    reveal_strlit("return");
    reveal_strlit("super");
    reveal_strlit("this");
    reveal_strlit("true");
    reveal_strlit("false");
    assert("and"@[0] == 'a' && "nil"@[0] == 'n' && "for"@[0] == 'f' && "var"@[0] == 'v' && "fun"@[1]
        == 'u' && "for"@[1] == 'o');
    assert("class"@[0] == 'c' && "while"@[0] == 'w' && "print"@[0] == 'p' && "super"@[0] == 's'
        && "false"@[0] == 'f');
    assert("else"@[0] == 'e' && "this"@[1] == 'h' && "true"@[1] == 'r');
    assert("or"@[0] == 'o' && "if"@[0] == 'i');
}

/// A reserved word is a token kind of its own: never the end of input, a
/// number, a string or an identifier.
pub proof fn lemma_keyword_kinds(text: Seq<char>)
    ensures
        keyword(text) matches Some(kind) ==> kind != TokenType::Eof && kind != TokenType::Number
            && kind != TokenType::StringLiteral && kind != TokenType::Identifier,
{
    lemma_keyword_table(text);
}

/// Looks `text` up in the table of reserved words.
pub fn lookup_keyword(text: &String) -> (r: Option<TokenType>)
    ensures
        r == keyword(text@),
{
    proof {
        lemma_keyword_table(text@);
    }
    if spells(text, "and") {
        Some(TokenType::And)
    } else if spells(text, "or") {
        Some(TokenType::Or)
    } else if spells(text, "nil") {
        Some(TokenType::Nil)
    } else if spells(text, "class") {
        Some(TokenType::Class)
    } else if spells(text, "for") {
        Some(TokenType::For)
    } else if spells(text, "while") {
        Some(TokenType::While)
    } else if spells(text, "var") {
        Some(TokenType::Var)
    } else if spells(text, "fun") {
        Some(TokenType::Fun)
    } else if spells(text, "if") {
        Some(TokenType::If)
    } else if spells(text, "else") {
        Some(TokenType::Else)
    } else if spells(text, "print") {
        Some(TokenType::Print)
    } else if spells(text, "return") {
        Some(TokenType::Return)
    } else if spells(text, "super") {
        Some(TokenType::Super)
    } else if spells(text, "this") {
        Some(TokenType::This)
    } else if spells(text, "true") {
        Some(TokenType::True)
    } else if spells(text, "false") {
        Some(TokenType::False)
    } else {
        None
    }
}

} // verus!
