//! Tokens of the language, a tokenizer producing them, and a converter from
//! byte offsets to 1-based (line, column) positions for diagnostics.

use vstd::prelude::*;
use vstd::string::*;

verus! {

/// Denotes all the possible tokens in the lexer.
#[derive(Clone, Copy, PartialEq, Eq, Structural, Debug)]
pub enum Token {
    /// End of the input; synthesized so that peeking never fails.
    End,
    /// A span the tokenizer could not match.
    Error,
    /// Line comment starting with `//` and ending at a newline.
    LineComment,
    /// Token `(`
    LParen,
    /// Token `)`
    RParen,
    /// Token `{`
    LBrace,
    /// Token `}`
    RBrace,
    /// Token `[`
    LBracket,
    /// Token `]`
    RBracket,
    /// Token `.`
    Period,
    /// Token `,`
    Comma,
    /// Token `;`
    Semicolon,
    /// Token `:`
    Colon,
    /// Token `->`
    Arrow,
    /// Token `+`
    Plus,
    /// Token `-`
    Minus,
    /// Token `*`
    Star,
    /// Token `/`
    Slash,
    /// Token `%`
    Percent,
    /// Token `=`
    Equal,
    /// Token `==`
    Equality,
    /// Token `!=`
    NotEq,
    /// Token `<`
    LessThan,
    /// Token `>`
    GreaterThan,
    /// Token `<=`
    LessEq,
    /// Token `>=`
    GreaterEq,
    /// Token `!`
    Not,
    /// Token `&&`
    And,
    /// Token `||`
    Or,
    /// Identifier: an ASCII letter or `_`, then letters, digits or `_`.
    Ident,
    /// Keyword `fn`
    Fn,
    /// Keyword `let`
    Let,
    /// Keyword `if`
    If,
    /// Keyword `else`
    Else,
    /// Integer literal: a digit, then digits or `_`.
    Int,
    /// Literal `true`
    True,
    /// Literal `false`
    False,
    /// String literal: `"` up to the next `"`.
    String,
    /// Type name `int`
    IntType,
    /// Type name `float`
    FloatType,
    /// Type name `double`
    DoubleType,
    /// Type name `bool`
    BooleanType,
    /// Type name `void`
    VoidType,
}

/// The rendering of each token in messages.
pub open spec fn token_text(t: Token) -> Seq<char> {
    match t {
        Token::And => "&&"@,
        Token::Arrow => "->"@,
        Token::BooleanType => "bool"@,
        Token::Colon => ":"@,
        Token::Comma => ","@,
        Token::DoubleType => "double"@,
        Token::Else => "else"@,
        Token::End => "EOF"@,
        Token::Equal => "="@,
        Token::Equality => "=="@,
        Token::Error => "ERROR"@,
        Token::False => "false"@,
        Token::FloatType => "float"@,
        Token::Fn => "fn"@,
        Token::GreaterEq => ">="@,
        Token::GreaterThan => ">"@,
        Token::Ident => "<identifier>"@,
        Token::If => "if"@,
        Token::Int => "<int>"@,
        Token::IntType => "int"@,
        Token::LessEq => "<="@,
        Token::LessThan => "<"@,
        Token::Let => "let"@,
        Token::LineComment => "// <comment>"@,
        Token::LBrace => "{"@,
        Token::LBracket => "["@,
        Token::LParen => "("@,
        Token::Minus => "-"@,
        Token::Not => "!"@,
        Token::NotEq => "!="@,
        Token::Or => "||"@,
        Token::Percent => "%"@,
        Token::Period => "."@,
        Token::Plus => "+"@,
        Token::RBrace => "}"@,
        Token::RBracket => "]"@,
        Token::RParen => ")"@,
        Token::Semicolon => ";"@,
        Token::Slash => "/"@,
        Token::Star => "*"@,
        Token::String => "<string>"@,
        Token::True => "true"@,
        Token::VoidType => "void"@,
    }
}

impl Token {
    /// Human-readable rendering of the token, as used in error messages.
    pub fn text(&self) -> (r: String)
        ensures
            r@ == token_text(*self),
    {
        match self {
            Token::And => "&&".to_owned(),
            Token::Arrow => "->".to_owned(),
            Token::BooleanType => "bool".to_owned(),
            Token::Colon => ":".to_owned(),
            Token::Comma => ",".to_owned(),
            Token::DoubleType => "double".to_owned(),
            Token::Else => "else".to_owned(),
            Token::End => "EOF".to_owned(),
            Token::Equal => "=".to_owned(),
            Token::Equality => "==".to_owned(),
            Token::Error => "ERROR".to_owned(),
            Token::False => "false".to_owned(),
            Token::FloatType => "float".to_owned(),
            Token::Fn => "fn".to_owned(),
            Token::GreaterEq => ">=".to_owned(),
            Token::GreaterThan => ">".to_owned(),
            Token::Ident => "<identifier>".to_owned(),
            Token::If => "if".to_owned(),
            Token::Int => "<int>".to_owned(),
            Token::IntType => "int".to_owned(),
            Token::LessEq => "<=".to_owned(),
            Token::LessThan => "<".to_owned(),
            Token::Let => "let".to_owned(),
            Token::LineComment => "// <comment>".to_owned(),
            Token::LBrace => "{".to_owned(),
            Token::LBracket => "[".to_owned(),
            Token::LParen => "(".to_owned(),
            Token::Minus => "-".to_owned(),
            Token::Not => "!".to_owned(),
            Token::NotEq => "!=".to_owned(),
            Token::Or => "||".to_owned(),
            Token::Percent => "%".to_owned(),
            Token::Period => ".".to_owned(),
            Token::Plus => "+".to_owned(),
            Token::RBrace => "}".to_owned(),
            Token::RBracket => "]".to_owned(),
            Token::RParen => ")".to_owned(),
            Token::Semicolon => ";".to_owned(),
            Token::Slash => "/".to_owned(),
            Token::Star => "*".to_owned(),
            Token::String => "<string>".to_owned(),
            Token::True => "true".to_owned(),
            Token::VoidType => "void".to_owned(),
        }
    }
}

/// The renderings of all tokens before the last, from index `i` on,
/// separated by ", ".
pub open spec fn leading_text(toks: Seq<Token>, i: int) -> Seq<char>
    decreases toks.len() - i,
{
    if i < 0 || i >= toks.len() - 1 {
        Seq::empty()
    } else if i + 1 < toks.len() - 1 {
        token_text(toks[i]) + ", "@ + leading_text(toks, i + 1)
    } else {
        token_text(toks[i])
    }
}

/// The rendering of a token list: one token stands alone, the last is
/// introduced by " or ", and the others are separated by ", ".
pub open spec fn describe_text(toks: Seq<Token>) -> Seq<char> {
    if toks.len() == 0 {
        Seq::empty()
    } else if toks.len() == 1 {
        token_text(toks[0])
    } else {
        leading_text(toks, 0) + " or "@ + token_text(toks[toks.len() - 1])
    }
}

/// Collection of tokens, used to render an expected-token set in messages.
pub struct Tokens(pub Vec<Token>);

impl Tokens {
    /// Wraps a list of tokens.
    pub fn new(tokens: Vec<Token>) -> (r: Tokens)
        ensures
            r.0@ == tokens@,
    {
        Tokens(tokens)
    }

    /// Renders the collection as "a", "a or b", or "a, b, ... or z".
    pub fn describe(&self) -> (r: String)
        ensures
            r@ == describe_text(self.0@),
    {
        let n = self.0.len();
        if n == 0 {
            String::new()
        } else if n == 1 {
            self.0[0].text()
        } else {
            let mut out = String::new();
            let mut i: usize = 0;
            while i < n - 1
                invariant
                    n == self.0.len(),
                    n >= 2,
                    i <= n - 1,
                    leading_text(self.0@, 0) == out@ + leading_text(self.0@, i as int),
                decreases n - 1 - i,
            {
                let ghost pre = out@;
                out.append(self.0[i].text().as_str());
                if i + 1 < n - 1 {
                    out.append(", ");
                    proof {
                        assert(leading_text(self.0@, 0) =~= out@ + leading_text(
                            self.0@,
                            i + 1,
                        ));
                    }
                } else {
                    proof {
                        assert(leading_text(self.0@, i + 1) =~= Seq::<char>::empty());
                        assert(leading_text(self.0@, 0) =~= out@ + leading_text(
                            self.0@,
                            i + 1,
                        ));
                    }
                }
                i = i + 1;
            }
            out.append(" or ");
            out.append(self.0[n - 1].text().as_str());
            proof {
                assert(out@ =~= describe_text(self.0@));
            }
            out
        }
    }
}

/// One lexed token together with its span in the source and its text.
pub struct TokenItem {
    /// The token kind.
    pub token: Token,
    /// Byte offset of the first character of the span.
    pub start: usize,
    /// Byte offset one past the last character of the span.
    pub end: usize,
    /// The characters of the span.
    pub text: String,
}

impl TokenItem {
    /// The span of the token in the source, as (start, end).
    pub fn range(&self) -> (r: (usize, usize))
        ensures
            r == (self.start, self.end),
    {
        (self.start, self.end)
    }

    /// The text of the token.
    pub fn slice(&self) -> (r: &str)
        ensures
            r@ == self.text@,
    {
        self.text.as_str()
    }
}

/// A token list is well formed for an input of `len` characters when the
/// spans are non-empty, ascending, inside the input, and each item's text has
/// the span's length.
pub open spec fn tokens_wf(items: Seq<TokenItem>, len: nat) -> bool {
    forall|i: int|
        0 <= i < items.len() ==> {
            &&& items[i].start < items[i].end <= len
            &&& items[i].text@.len() == items[i].end - items[i].start
            &&& (i + 1 < items.len() ==> items[i].end <= items[i + 1].start)
        }
}

/// True for bytes the tokenizer skips between tokens.
pub open spec fn is_space(c: u8) -> bool {
    c == 32 || c == 9 || c == 10 || c == 13 || c == 12
}

/// True for ASCII letters and `_`, the characters that may start an
/// identifier.
pub open spec fn is_ident_start(c: u8) -> bool {
    (97 <= c <= 122) || (65 <= c <= 90) || c == 95
}

/// True for the characters that may continue an identifier.
pub open spec fn is_ident_continue(c: u8) -> bool {
    is_ident_start(c) || (48 <= c <= 57)
}

/// True for ASCII digits.
pub open spec fn is_digit(c: u8) -> bool {
    48 <= c <= 57
}

fn byte_is_space(c: u8) -> (r: bool)
    ensures
        r == is_space(c),
{
    c == 32 || c == 9 || c == 10 || c == 13 || c == 12
}

fn byte_is_ident_start(c: u8) -> (r: bool)
    ensures
        r == is_ident_start(c),
{
    (97 <= c && c <= 122) || (65 <= c && c <= 90) || c == 95
}

fn byte_is_ident_continue(c: u8) -> (r: bool)
    ensures
        r == is_ident_continue(c),
{
    byte_is_ident_start(c) || (48 <= c && c <= 57)
}

fn byte_is_digit(c: u8) -> (r: bool)
    ensures
        r == is_digit(c),
{
    48 <= c && c <= 57
}

/// Character-level identifier-start class.
pub open spec fn is_ident_start_char(c: char) -> bool {
    ('a' <= c <= 'z') || ('A' <= c <= 'Z') || c == '_'
}

/// Character-level identifier-continue class.
pub open spec fn is_ident_continue_char(c: char) -> bool {
    is_ident_start_char(c) || ('0' <= c <= '9')
}

/// The keyword token a spelled-out word denotes, if any.
pub open spec fn spec_keyword(txt: Seq<char>) -> Option<Token> {
    if txt == seq!['f', 'n'] {
        Some(Token::Fn)
    } else if txt == seq!['l', 'e', 't'] {
        Some(Token::Let)
    } else if txt == seq!['i', 'f'] {
        Some(Token::If)
    } else if txt == seq!['e', 'l', 's', 'e'] {
        Some(Token::Else)
    } else if txt == seq!['t', 'r', 'u', 'e'] {
        Some(Token::True)
    } else if txt == seq!['f', 'a', 'l', 's', 'e'] {
        Some(Token::False)
    } else if txt == seq!['i', 'n', 't'] {
        Some(Token::IntType)
    } else if txt == seq!['f', 'l', 'o', 'a', 't'] {
        Some(Token::FloatType)
    } else if txt == seq!['d', 'o', 'u', 'b', 'l', 'e'] {
        Some(Token::DoubleType)
    } else if txt == seq!['b', 'o', 'o', 'l'] {
        Some(Token::BooleanType)
    } else if txt == seq!['v', 'o', 'i', 'd'] {
        Some(Token::VoidType)
    } else {
        None
    }
}

/// What a produced token's kind says of its text: fixed tokens have their
/// spelling, keywords their word, an identifier is a word that is no
/// keyword, an integer is digits with underscores, and a string literal is
/// quote-delimited with no quote inside.  `End` and `LineComment` are never
/// produced.
pub open spec fn token_matches(t: Token, txt: Seq<char>) -> bool {
    match t {
        Token::End => false,
        Token::Error => true,
        Token::LineComment => false,
        Token::LParen => txt == seq!['('],
        Token::RParen => txt == seq![')'],
        Token::LBrace => txt == seq!['{'],
        Token::RBrace => txt == seq!['}'],
        Token::LBracket => txt == seq!['['],
        Token::RBracket => txt == seq![']'],
        Token::Period => txt == seq!['.'],
        Token::Comma => txt == seq![','],
        Token::Semicolon => txt == seq![';'],
        Token::Colon => txt == seq![':'],
        Token::Arrow => txt == seq!['-', '>'],
        Token::Plus => txt == seq!['+'],
        Token::Minus => txt == seq!['-'],
        Token::Star => txt == seq!['*'],
        Token::Slash => txt == seq!['/'],
        Token::Percent => txt == seq!['%'],
        Token::Equal => txt == seq!['='],
        Token::Equality => txt == seq!['=', '='],
        Token::NotEq => txt == seq!['!', '='],
        Token::LessThan => txt == seq!['<'],
        Token::GreaterThan => txt == seq!['>'],
        Token::LessEq => txt == seq!['<', '='],
        Token::GreaterEq => txt == seq!['>', '='],
        Token::Not => txt == seq!['!'],
        Token::And => txt == seq!['&', '&'],
        Token::Or => txt == seq!['|', '|'],
        Token::Ident => txt.len() > 0 && is_ident_start_char(txt[0]) && (forall|k: int|
            0 <= k < txt.len() ==> is_ident_continue_char(#[trigger] txt[k]))
            && spec_keyword(txt) is None,
        Token::Fn => spec_keyword(txt) == Some(Token::Fn),
        Token::Let => spec_keyword(txt) == Some(Token::Let),
        Token::If => spec_keyword(txt) == Some(Token::If),
        Token::Else => spec_keyword(txt) == Some(Token::Else),
        Token::True => spec_keyword(txt) == Some(Token::True),
        Token::False => spec_keyword(txt) == Some(Token::False),
        Token::Int => txt.len() > 0 && '0' <= txt[0] <= '9' && (forall|k: int|
            0 <= k < txt.len() ==> ('0' <= #[trigger] txt[k] <= '9' || txt[k] == '_')),
        Token::String => txt.len() >= 2 && txt[0] == '"' && txt.last() == '"' && (forall|
            k: int,
        |
            1 <= k < txt.len() - 1 ==> #[trigger] txt[k] != '"'),
        Token::IntType => spec_keyword(txt) == Some(Token::IntType),
        Token::FloatType => spec_keyword(txt) == Some(Token::FloatType),
        Token::DoubleType => spec_keyword(txt) == Some(Token::DoubleType),
        Token::BooleanType => spec_keyword(txt) == Some(Token::BooleanType),
        Token::VoidType => spec_keyword(txt) == Some(Token::VoidType),
    }
}

/// For an ASCII sequence, the byte-level character classes agree with the
/// character-level ones.
proof fn lemma_char_class(s: Seq<char>, i: int)
    requires
        vstd::utf8::is_ascii_chars(s),
        0 <= i < s.len(),
    ensures
        is_ident_start(s[i] as u8) == is_ident_start_char(s[i]),
        is_ident_continue(s[i] as u8) == is_ident_continue_char(s[i]),
        is_digit(s[i] as u8) == ('0' <= s[i] <= '9'),
        (s[i] as int) == ((s[i] as u8) as int),
{
    lemma_ascii_char_code(s, i);
}

/// Classifies a completed identifier span, turning keyword spellings into
/// their keyword tokens.
fn keyword_or_ident(text: &String) -> (r: Token)
    ensures
        r == (match spec_keyword(text@) {
            Some(t) => t,
            None => Token::Ident,
        }),
{
    proof {
        reveal_strlit("fn");
        reveal_strlit("let");
        reveal_strlit("if");
        reveal_strlit("else");
        reveal_strlit("true");
        reveal_strlit("false");
        reveal_strlit("int");
        reveal_strlit("float");
        reveal_strlit("double");
        reveal_strlit("bool");
        reveal_strlit("void");
        assert("fn"@ =~= seq!['f', 'n']);
        assert("let"@ =~= seq!['l', 'e', 't']);
        assert("if"@ =~= seq!['i', 'f']);
        assert("else"@ =~= seq!['e', 'l', 's', 'e']);
        assert("true"@ =~= seq!['t', 'r', 'u', 'e']);
        assert("false"@ =~= seq!['f', 'a', 'l', 's', 'e']);
        assert("int"@ =~= seq!['i', 'n', 't']);
        assert("float"@ =~= seq!['f', 'l', 'o', 'a', 't']);
        assert("double"@ =~= seq!['d', 'o', 'u', 'b', 'l', 'e']);
        assert("bool"@ =~= seq!['b', 'o', 'o', 'l']);
        assert("void"@ =~= seq!['v', 'o', 'i', 'd']);
    }
    if *text == "fn".to_owned() {
        Token::Fn
    } else if *text == "let".to_owned() {
        Token::Let
    } else if *text == "if".to_owned() {
        Token::If
    } else if *text == "else".to_owned() {
        Token::Else
    } else if *text == "true".to_owned() {
        Token::True
    } else if *text == "false".to_owned() {
        Token::False
    } else if *text == "int".to_owned() {
        Token::IntType
    } else if *text == "float".to_owned() {
        Token::FloatType
    } else if *text == "double".to_owned() {
        Token::DoubleType
    } else if *text == "bool".to_owned() {
        Token::BooleanType
    } else if *text == "void".to_owned() {
        Token::VoidType
    } else {
        Token::Ident
    }
}

/// Splits an ASCII source into tokens.
///
/// Whitespace and line comments are skipped.  Longest match wins, so `<=` is
/// one token and `intx` is an identifier rather than a type name.  A span
/// that matches nothing (including a non-ASCII input as a whole) becomes an
/// `Error` token.
pub fn tokenize(input: &str) -> (r: Vec<TokenItem>)
    ensures
        input.is_ascii() ==> tokens_wf(r@, input@.len()),
        input.is_ascii() ==> forall|i: int|
            0 <= i < r@.len() ==> r@[i].text@ == input@.subrange(
                r@[i].start as int,
                r@[i].end as int,
            ),
        input.is_ascii() ==> forall|i: int|
            0 <= i < r@.len() ==> token_matches((#[trigger] r@[i]).token, r@[i].text@),
{
    let mut out: Vec<TokenItem> = Vec::new();
    if !input.is_ascii() {
        if input.unicode_len() > 0 {
            let end = input.unicode_len();
            out.push(TokenItem { token: Token::Error, start: 0, end, text: String::new() });
        }
        return out;
    }
    let n = input.unicode_len();
    let mut i: usize = 0;
    while i < n
        invariant
            n == input@.len(),
            input.is_ascii(),
            i <= n,
            tokens_wf(out@, n as nat),
            forall|k: int|
                0 <= k < out@.len() ==> out@[k].end <= i && out@[k].text@ == input@.subrange(
                    out@[k].start as int,
                    out@[k].end as int,
                ),
            forall|k: int|
                0 <= k < out@.len() ==> token_matches((#[trigger] out@[k]).token, out@[k].text@),
        decreases n - i,
    {
        let c = input.get_ascii(i);
        if byte_is_space(c) {
            i = i + 1;
        } else if c == 47 && i + 1 < n && input.get_ascii(i + 1) == 47 && has_newline(input, i) {
            // line comment `//...\n`
            let mut j: usize = i + 2;
            while j < n && input.get_ascii(j) != 10
                invariant
                    n == input@.len(),
                    input.is_ascii(),
                    i + 2 <= j <= n,
                decreases n - j,
            {
                j = j + 1;
            }
            if j < n {
                i = j + 1;
            } else {
                i = n;
            }
        } else {
            let (token, end) = next_span(input, i);
            let text = input.substring_ascii(i, end).to_owned();
            out.push(TokenItem { token, start: i, end, text });
            i = end;
        }
    }
    out
}

/// True when a newline occurs at or after position `i`, so that a `//`
/// comment there has an end to run to.
fn has_newline(input: &str, i: usize) -> (r: bool)
    requires
        input.is_ascii(),
        i <= input@.len(),
{
    let n = input.unicode_len();
    let mut j: usize = i;
    while j < n
        invariant
            n == input@.len(),
            input.is_ascii(),
            i <= j <= n,
        decreases n - j,
    {
        if input.get_ascii(j) == 10 {
            return true;
        }
        j = j + 1;
    }
    false
}

/// Matches the single token starting at position `i`, returning its kind and
/// its end position.
fn next_span(input: &str, i: usize) -> (r: (Token, usize))
    requires
        input.is_ascii(),
        i < input@.len(),
    ensures
        i < r.1 <= input@.len(),
        token_matches(r.0, input@.subrange(i as int, r.1 as int)),
{
    let n = input.unicode_len();
    let c = input.get_ascii(i);
    // A byte of 0 stands for "no second character": no token contains it.
    let two = if i + 1 < n {
        input.get_ascii(i + 1)
    } else {
        0
    };
    proof {
        lemma_ascii_char_code(input@, i as int);
        assert(input@.subrange(i as int, i + 1) =~= seq![input@[i as int]]);
        if i + 1 < input@.len() {
            lemma_ascii_char_code(input@, i + 1);
            assert(input@.subrange(i as int, i + 2) =~= seq![
                input@[i as int],
                input@[i + 1],
            ]);
        }
    }
    if c == 45 && two == 62 {
        (Token::Arrow, i + 2)  // ->
    } else if c == 61 && two == 61 {
        (Token::Equality, i + 2)  // ==
    } else if c == 33 && two == 61 {
        (Token::NotEq, i + 2)  // !=
    } else if c == 60 && two == 61 {
        (Token::LessEq, i + 2)  // <=
    } else if c == 62 && two == 61 {
        (Token::GreaterEq, i + 2)  // >=
    } else if c == 38 && two == 38 {
        (Token::And, i + 2)  // &&
    } else if c == 124 && two == 124 {
        (Token::Or, i + 2)  // ||
    } else if c == 40 {
        (Token::LParen, i + 1)
    } else if c == 41 {
        (Token::RParen, i + 1)
    } else if c == 123 {
        (Token::LBrace, i + 1)
    } else if c == 125 {
        (Token::RBrace, i + 1)
    } else if c == 91 {
        (Token::LBracket, i + 1)
    } else if c == 93 {
        (Token::RBracket, i + 1)
    } else if c == 46 {
        (Token::Period, i + 1)
    } else if c == 44 {
        (Token::Comma, i + 1)
    } else if c == 59 {
        (Token::Semicolon, i + 1)
    } else if c == 58 {
        (Token::Colon, i + 1)
    } else if c == 43 {
        (Token::Plus, i + 1)
    } else if c == 45 {
        (Token::Minus, i + 1)
    } else if c == 42 {
        (Token::Star, i + 1)
    } else if c == 47 {
        (Token::Slash, i + 1)
    } else if c == 37 {
        (Token::Percent, i + 1)
    } else if c == 61 {
        (Token::Equal, i + 1)
    } else if c == 60 {
        (Token::LessThan, i + 1)
    } else if c == 62 {
        (Token::GreaterThan, i + 1)
    } else if c == 33 {
        (Token::Not, i + 1)
    } else if byte_is_ident_start(c) {
        proof {
            lemma_char_class(input@, i as int);
        }
        let mut j: usize = i + 1;
        #[verifier::loop_isolation(false)]
        while j < n && byte_is_ident_continue(input.get_ascii(j))
            invariant
                i + 1 <= j <= n,
                forall|k: int| i < k < j ==> is_ident_continue_char(#[trigger] input@[k]),
            decreases n - j,
        {
            proof {
                lemma_char_class(input@, j as int);
            }
            j = j + 1;
        }
        let text = input.substring_ascii(i, j).to_owned();
        proof {
            assert(forall|k: int|
                0 <= k < text@.len() ==> #[trigger] text@[k] == input@[i + k]);
            assert(is_ident_continue_char(text@[0]));
        }
        (keyword_or_ident(&text), j)
    } else if byte_is_digit(c) {
        proof {
            lemma_char_class(input@, i as int);
        }
        let mut j: usize = i + 1;
        #[verifier::loop_isolation(false)]
        while j < n && (byte_is_digit(input.get_ascii(j)) || input.get_ascii(j) == 95)
            invariant
                i + 1 <= j <= n,
                forall|k: int|
                    i < k < j ==> ('0' <= #[trigger] input@[k] <= '9' || input@[k] == '_'),
            decreases n - j,
        {
            proof {
                lemma_char_class(input@, j as int);
            }
            j = j + 1;
        }
        proof {
            assert(input@.subrange(i as int, j as int)[0] == input@[i as int]);
            assert(forall|k: int|
                0 <= k < j - i ==> #[trigger] input@.subrange(i as int, j as int)[k]
                    == input@[i + k]);
        }
        (Token::Int, j)
    } else if c == 34 {
        // string literal `"..."`, no escapes
        let mut j: usize = i + 1;
        #[verifier::loop_isolation(false)]
        while j < n && input.get_ascii(j) != 34
            invariant
                i + 1 <= j <= n,
                forall|k: int| i < k < j ==> #[trigger] input@[k] != '"',
            decreases n - j,
        {
            proof {
                lemma_ascii_char_code(input@, j as int);
            }
            j = j + 1;
        }
        if j < n {
            proof {
                lemma_ascii_char_code(input@, j as int);
                let txt = input@.subrange(i as int, j + 1);
                assert(forall|k: int| 0 <= k < txt.len() ==> #[trigger] txt[k] == input@[i + k]);
                assert(txt[0] == '"');
                assert(txt.last() == '"');
            }
            (Token::String, j + 1)
        } else {
            (Token::Error, i + 1)
        }
    } else {
        (Token::Error, i + 1)
    }
}

/// Converts from a token span into a character location in terms of
/// (line, column).
pub struct RangeConverter(pub Vec<(usize, usize)>);

/// The line table of an input, scanned from position `i` with the current
/// line open since `seg_start`: each newline closes a line (an empty line
/// is given a one-character span over its newline), and a final segment
/// without a newline still forms a line.
pub open spec fn spec_lines(s: Seq<char>, seg_start: int, i: int) -> Seq<(usize, usize)>
    decreases s.len() - i,
{
    if i < seg_start || i > s.len() || s.len() > usize::MAX {
        Seq::empty()
    } else if i >= s.len() {
        if seg_start < s.len() {
            seq![(seg_start as usize, s.len() as usize)]
        } else {
            Seq::empty()
        }
    } else if s[i] == '\n' {
        let line = if seg_start == i {
            (seg_start as usize, (seg_start + 1) as usize)
        } else {
            (seg_start as usize, i as usize)
        };
        seq![line] + spec_lines(s, i + 1, i + 1)
    } else {
        spec_lines(s, seg_start, i + 1)
    }
}

/// The index of the first recorded line whose half-open span contains
/// `start`, if any.
pub open spec fn first_line_containing(lines: Seq<(usize, usize)>, start: usize) -> Option<int>
    decreases lines.len(),
{
    if lines.len() == 0 {
        None
    } else if lines[0].0 <= start < lines[0].1 {
        Some(0int)
    } else {
        match first_line_containing(lines.drop_first(), start) {
            Some(i) => Some(i + 1),
            None => None,
        }
    }
}

proof fn lemma_first_line_skip(lines: Seq<(usize, usize)>, start: usize, i: int)
    requires
        0 <= i <= lines.len(),
        forall|j: int| 0 <= j < i ==> !((#[trigger] lines[j]).0 <= start < lines[j].1),
    ensures
        first_line_containing(lines, start) == match first_line_containing(
            lines.skip(i),
            start,
        ) {
            Some(k) => Some(k + i),
            None => None::<int>,
        },
    decreases i,
{
    if i == 0 {
        assert(lines.skip(0) =~= lines);
    } else {
        assert(lines.len() > 0);
        assert(!(lines[0].0 <= start < lines[0].1));
        lemma_first_line_skip(lines.drop_first(), start, i - 1);
        assert(lines.drop_first().skip(i - 1) =~= lines.skip(i));
    }
}

impl RangeConverter {
    /// Records, for each line of the input, the half-open span of byte
    /// offsets that belong to it.  An empty line is given a one-character
    /// span covering its newline, so that every line can be found.
    pub fn new(input: &str) -> (r: RangeConverter)
        ensures
            input.is_ascii() ==> r.0@ == spec_lines(input@, 0, 0),
            forall|i: int|
                0 <= i < r.0@.len() ==> ((#[trigger] r.0@[i]).0 < r.0@[i].1 && (i + 1 < r.0@.len()
                    ==> r.0@[i].1 <= r.0@[i + 1].0)),
    {
        let mut list: Vec<(usize, usize)> = Vec::new();
        if !input.is_ascii() {
            return RangeConverter(list);
        }
        let n = input.unicode_len();
        let mut seg_start: usize = 0;
        let mut i: usize = 0;
        while i < n
            invariant
                n == input@.len(),
                input.is_ascii(),
                seg_start <= i <= n,
                spec_lines(input@, 0, 0) == list@ + spec_lines(
                    input@,
                    seg_start as int,
                    i as int,
                ),
                forall|k: int|
                    0 <= k < list@.len() ==> ((#[trigger] list@[k]).0 < list@[k].1 && list@[k].1
                        <= seg_start && (k + 1 < list@.len() ==> list@[k].1 <= list@[k
                        + 1].0)),
            decreases n - i,
        {
            let ghost l0 = list@;
            if input.get_ascii(i) == 10 {
                if seg_start == i {
                    list.push((seg_start, seg_start + 1));
                } else {
                    list.push((seg_start, i));
                }
                proof {
                    assert(l0 + spec_lines(input@, seg_start as int, i as int) =~= list@
                        + spec_lines(input@, i + 1, i + 1));
                }
                seg_start = i + 1;
            }
            i = i + 1;
        }
        if seg_start < n {
            let ghost l0 = list@;
            list.push((seg_start, n));
            proof {
                assert(l0 + spec_lines(input@, seg_start as int, n as int) =~= list@);
            }
        } else {
            proof {
                assert(list@ + spec_lines(input@, seg_start as int, n as int) =~= list@);
            }
        }
        RangeConverter(list)
    }

    /// Converts from a span into a 1-based (line, column) pair: the line
    /// containing the span's start, or line 1 with the raw offset as column
    /// when no recorded line contains it.
    pub fn to_line_and_pos(&self, range: (usize, usize)) -> (r: (usize, usize))
        requires
            range.0 < usize::MAX,
            self.0@.len() < usize::MAX,
    ensures
            match first_line_containing(self.0@, range.0) {
                Some(i) => r.0 == i + 1 && r.1 == range.0 - self.0@[i].0 + 1,
                None => r.0 == 1 && r.1 == range.0 + 1,
            },
    {
        let start = range.0;
        let n = self.0.len();
        let mut i: usize = 0;
        while i < n
            invariant
                n == self.0@.len(),
                n < usize::MAX,
                start == range.0,
                i <= n,
                forall|j: int| 0 <= j < i ==> !((#[trigger] self.0@[j]).0 <= start < self.0@[j].1),
            decreases n - i,
        {
            let line = self.0[i];
            if line.0 <= start && start < line.1 {
                proof {
                    lemma_first_line_skip(self.0@, start, i as int);
                    assert(self.0@.skip(i as int)[0] == self.0@[i as int]);
                    assert(first_line_containing(self.0@.skip(i as int), start)
                        == Some(0int));
                }
                return (i + 1, start - line.0 + 1);
            }
            i = i + 1;
        }
        proof {
            lemma_first_line_skip(self.0@, start, n as int);
            assert(self.0@.skip(n as int).len() == 0);
        }
        (1, start + 1)
    }
}

/// For an ASCII character sequence, each character's code is its byte.
proof fn lemma_ascii_char_code(s: Seq<char>, i: int)
    requires
        vstd::utf8::is_ascii_chars(s),
        0 <= i < s.len(),
    ensures
        0 <= (s[i] as int) < 128,
        (s[i] as int) == ((s[i] as u8) as int),
{
    assert('\0' <= s[i] <= '\u{7f}');
}

} // verus!
