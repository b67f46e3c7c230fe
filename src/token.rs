use vstd::prelude::*;

verus! {

/// A classified lexical unit.
#[derive(Debug, PartialEq, Eq, Clone)]
pub enum Token {
    Assign,
    Asterisk,
    Bang,
    Colon,
    Comma,
    Else,
    Eq,
    False,
    Function,
    GT,
    Identifier(String),
    If,
    Illegal(String),
    Int(String),
    LBrace,
    LBracket,
    LParen,
    LT,
    Let,
    Macro,
    Minus,
    NotEq,
    Plus,
    Quote,
    RBrace,
    RBracket,
    RParen,
    Return,
    Semicolon,
    Slash,
    String(String),
    True,
    Unquote,
}

/// A token that carries no text.
pub open spec fn is_plain(t: Token) -> bool {
    !(t is Identifier || t is Illegal || t is Int || t is String)
}

/// The position of the token's variant in the list of variants.
pub open spec fn kind_of(t: Token) -> u8 {
    match t {
        Token::Assign => 0,
        Token::Asterisk => 1,
        Token::Bang => 2,
        Token::Colon => 3,
        Token::Comma => 4,
        Token::Else => 5,
        Token::Eq => 6,
        Token::False => 7,
        Token::Function => 8,
        Token::GT => 9,
        Token::Identifier(_) => 10,
        Token::If => 11,
        Token::Illegal(_) => 12,
        Token::Int(_) => 13,
        Token::LBrace => 14,
        Token::LBracket => 15,
        Token::LParen => 16,
        Token::LT => 17,
        Token::Let => 18,
        Token::Macro => 19,
        Token::Minus => 20,
        Token::NotEq => 21,
        Token::Plus => 22,
        Token::Quote => 23,
        Token::RBrace => 24,
        Token::RBracket => 25,
        Token::RParen => 26,
        Token::Return => 27,
        Token::Semicolon => 28,
        Token::Slash => 29,
        Token::String(_) => 30,
        Token::True => 31,
        Token::Unquote => 32,
    }
}

/// The text that names a token in messages: the variant's name, followed
/// by its text in quotes for the tokens that carry one.
pub open spec fn describe(t: Token) -> Seq<char> {
    match t {
        Token::Assign => "Assign"@,
        Token::Asterisk => "Asterisk"@,
        Token::Bang => "Bang"@,
        Token::Colon => "Colon"@,
        Token::Comma => "Comma"@,
        Token::Else => "Else"@,
        Token::Eq => "Eq"@,
        Token::False => "False"@,
        Token::Function => "Function"@,
        Token::GT => "GT"@,
        Token::Identifier(s) => text_form("Identifier"@, s@),
        Token::If => "If"@,
        Token::Illegal(s) => text_form("Illegal"@, s@),
        Token::Int(s) => text_form("Int"@, s@),
        Token::LBrace => "LBrace"@,
        Token::LBracket => "LBracket"@,
        Token::LParen => "LParen"@,
        Token::LT => "LT"@,
        Token::Let => "Let"@,
        Token::Macro => "Macro"@,
        Token::Minus => "Minus"@,
        Token::NotEq => "NotEq"@,
        Token::Plus => "Plus"@,
        Token::Quote => "Quote"@,
        Token::RBrace => "RBrace"@,
        Token::RBracket => "RBracket"@,
        Token::RParen => "RParen"@,
        Token::Return => "Return"@,
        Token::Semicolon => "Semicolon"@,
        Token::Slash => "Slash"@,
        Token::String(s) => text_form("String"@, s@),
        Token::True => "True"@,
        Token::Unquote => "Unquote"@,
    }
}

/// A variant's name with its text, quoted, in parentheses.
pub open spec fn text_form(name: Seq<char>, text: Seq<char>) -> Seq<char> {
    name + "("@ + quoted(text) + ")"@
}

/// How a character is written inside a quoted text: quotes, backslashes,
/// line feeds, carriage returns, tabs and NUL get a backslash escape.
pub open spec fn escape_char(c: char) -> Seq<char> {
    if c == '"' {
        "\\\""@
    } else if c == '\\' {
        "\\\\"@
    } else if c == '\n' {
        "\\n"@
    } else if c == '\r' {
        "\\r"@
    } else if c == '\t' {
        "\\t"@
    } else if c == '\0' {
        "\\0"@
    } else {
        seq![c]
    }
}

pub open spec fn escaped(s: Seq<char>) -> Seq<char>
    decreases s.len(),
{
    if s.len() == 0 {
        Seq::empty()
    } else {
        escaped(s.drop_last()) + escape_char(s.last())
    }
}

/// A text in double quotes, escaped.
pub open spec fn quoted(s: Seq<char>) -> Seq<char> {
    "\""@ + escaped(s) + "\""@
}

fn escape_str(c: char) -> (r: Option<&'static str>)
    ensures
        match r {
            Some(t) => t@ == escape_char(c),
            None => escape_char(c) == seq![c],
        },
{
    if c == '"' {
        Some("\\\"")
    } else if c == '\\' {
        Some("\\\\")
    } else if c == '\n' {
        Some("\\n")
    } else if c == '\r' {
        Some("\\r")
    } else if c == '\t' {
        Some("\\t")
    } else if c == '\0' {
        Some("\\0")
    } else {
        None
    }
}

/// Appends `s` in double quotes, escaped.
pub fn push_quoted(r: &mut String, s: &str)
    ensures
        final(r)@ == old(r)@ + quoted(s@),
{
    r.append("\"");
    let ghost start = r@;
    let n = s.unicode_len();
    let mut i: usize = 0;
    while i < n
        invariant
            n == s@.len(),
            i <= n,
            r@ == start + escaped(s@.subrange(0, i as int)),
        decreases n - i,
    {
        assert(s@.subrange(0, i as int + 1).drop_last() =~= s@.subrange(0, i as int));
        let c = s.get_char(i);
        match escape_str(c) {
            Some(t) => r.append(t),
            None => {
                let one = s.substring_char(i, i + 1);
                assert(one@ =~= seq![c]);
                r.append(one);
            },
        }
        i = i + 1;
    }
    assert(s@.subrange(0, n as int) =~= s@);
    r.append("\"");
}

/// `describe` of an optional token, with `EOF` for the end of input.
pub open spec fn describe_opt(t: Option<Token>) -> Seq<char> {
    match t {
        Some(t) => describe(t),
        None => "EOF"@,
    }
}

fn text_token(name: &str, s: &String) -> (r: String)
    ensures
        r@ == text_form(name@, s@),
{
    let mut r = String::from_str(name);
    r.append("(");
    push_quoted(&mut r, s.as_str());
    r.append(")");
    r
}

impl Token {
    /// The variant's position in the list of variants.
    pub fn kind(&self) -> (r: u8)
        ensures
            r == kind_of(*self),
    {
        match self {
            Token::Assign => 0,
            Token::Asterisk => 1,
            Token::Bang => 2,
            Token::Colon => 3,
            Token::Comma => 4,
            Token::Else => 5,
            Token::Eq => 6,
            Token::False => 7,
            Token::Function => 8,
            Token::GT => 9,
            Token::Identifier(_) => 10,
            Token::If => 11,
            Token::Illegal(_) => 12,
            Token::Int(_) => 13,
            Token::LBrace => 14,
            Token::LBracket => 15,
            Token::LParen => 16,
            Token::LT => 17,
            Token::Let => 18,
            Token::Macro => 19,
            Token::Minus => 20,
            Token::NotEq => 21,
            Token::Plus => 22,
            Token::Quote => 23,
            Token::RBrace => 24,
            Token::RBracket => 25,
            Token::RParen => 26,
            Token::Return => 27,
            Token::Semicolon => 28,
            Token::Slash => 29,
            Token::String(_) => 30,
            Token::True => 31,
            Token::Unquote => 32,
        }
    }

    /// Whether this token equals `plain`, a token that carries no text.
    pub fn is(&self, plain: &Token) -> (r: bool)
        requires
            is_plain(*plain),
        ensures
            r == (*self == *plain),
    {
        self.kind() == plain.kind()
    }

    /// The text that names this token in messages.
    pub fn describe(&self) -> (r: String)
        ensures
            r@ == describe(*self),
    {
        match self {
            Token::Assign => String::from_str("Assign"),
            Token::Asterisk => String::from_str("Asterisk"),
            Token::Bang => String::from_str("Bang"),
            Token::Colon => String::from_str("Colon"),
            Token::Comma => String::from_str("Comma"),
            Token::Else => String::from_str("Else"),
            Token::Eq => String::from_str("Eq"),
            Token::False => String::from_str("False"),
            Token::Function => String::from_str("Function"),
            Token::GT => String::from_str("GT"),
            Token::Identifier(s) => text_token("Identifier", s),
            Token::If => String::from_str("If"),
            Token::Illegal(s) => text_token("Illegal", s),
            Token::Int(s) => text_token("Int", s),
            Token::LBrace => String::from_str("LBrace"),
            Token::LBracket => String::from_str("LBracket"),
            Token::LParen => String::from_str("LParen"),
            Token::LT => String::from_str("LT"),
            Token::Let => String::from_str("Let"),
            Token::Macro => String::from_str("Macro"),
            Token::Minus => String::from_str("Minus"),
            Token::NotEq => String::from_str("NotEq"),
            Token::Plus => String::from_str("Plus"),
            Token::Quote => String::from_str("Quote"),
            Token::RBrace => String::from_str("RBrace"),
            Token::RBracket => String::from_str("RBracket"),
            Token::RParen => String::from_str("RParen"),
            Token::Return => String::from_str("Return"),
            Token::Semicolon => String::from_str("Semicolon"),
            Token::Slash => String::from_str("Slash"),
            Token::String(s) => text_token("String", s),
            Token::True => String::from_str("True"),
            Token::Unquote => String::from_str("Unquote"),
        }
    }
}

/// `describe_opt` in executable form.
pub fn describe_opt_exec(t: Option<&Token>) -> (r: String)
    ensures
        r@ == describe_opt(match t { Some(t) => Some(*t), None => None }),
{
    match t {
        Some(t) => t.describe(),
        None => String::from_str("EOF"),
    }
}

} // verus!
