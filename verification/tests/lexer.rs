use poop::lexer::{tokenize, RangeConverter, Token};

#[test]
fn first_line() {
    // Given
    let string = "a b\nc d\nf\n\ng";
    let converter = RangeConverter::new(string);

    // When
    let line_and_pos = converter.to_line_and_pos((0, 1));

    // Then
    assert_eq!(line_and_pos, (1, 1));
}

#[test]
fn second_line() {
    // Given
    let string = "a b\nc d\nf\n\ng";
    let converter = RangeConverter::new(string);

    // When
    let line_and_pos = converter.to_line_and_pos((4, 5));

    // Then
    println!("{}", &string[4..5]);
    assert_eq!(line_and_pos, (2, 1));
}

#[test]
fn last_line_after_empty_line() {
    let string = "a b\nc d\nf\n\ng";
    let converter = RangeConverter::new(string);
    assert_eq!(converter.to_line_and_pos((11, 12)), (5, 1));
}

#[test]
fn offset_past_the_end_falls_back_to_raw_position() {
    let converter = RangeConverter::new("ab");
    assert_eq!(converter.to_line_and_pos((7, 8)), (1, 8));
}

fn kinds(input: &str) -> Vec<Token> {
    tokenize(input).iter().map(|item| item.token).collect()
}

#[test]
fn tokenize_expression() {
    assert_eq!(
        kinds("3 + 4 * 5"),
        vec![Token::Int, Token::Plus, Token::Int, Token::Star, Token::Int]
    );
}

#[test]
fn tokenize_keywords_and_types() {
    assert_eq!(
        kinds("fn let if else true false int float double bool void"),
        vec![
            Token::Fn,
            Token::Let,
            Token::If,
            Token::Else,
            Token::True,
            Token::False,
            Token::IntType,
            Token::FloatType,
            Token::DoubleType,
            Token::BooleanType,
            Token::VoidType,
        ]
    );
}

#[test]
fn tokenize_longest_match_wins() {
    assert_eq!(
        kinds("<= < == = -> - != !"),
        vec![
            Token::LessEq,
            Token::LessThan,
            Token::Equality,
            Token::Equal,
            Token::Arrow,
            Token::Minus,
            Token::NotEq,
            Token::Not,
        ]
    );
    // a keyword prefix does not make an identifier a keyword
    assert_eq!(kinds("intx iffy"), vec![Token::Ident, Token::Ident]);
}

#[test]
fn tokenize_skips_line_comments() {
    assert_eq!(
        kinds("1 // a comment\n2"),
        vec![Token::Int, Token::Int]
    );
}

#[test]
fn tokenize_string_literal() {
    let items = tokenize("let x = \"hi\"");
    assert_eq!(items[3].token, Token::String);
    assert_eq!(items[3].slice(), "\"hi\"");
    assert_eq!(items[3].range(), (8, 12));
}

#[test]
fn tokenize_reports_spans() {
    let items = tokenize("ab + 7");
    assert_eq!(items[0].range(), (0, 2));
    assert_eq!(items[0].slice(), "ab");
    assert_eq!(items[1].range(), (3, 4));
    assert_eq!(items[2].range(), (5, 6));
}

#[test]
fn tokenize_unknown_character_is_an_error_token() {
    assert_eq!(kinds("#"), vec![Token::Error]);
}

#[test]
fn tokens_describe_lists_alternatives() {
    let tokens = poop::lexer::Tokens::new(vec![Token::Fn, Token::Let, Token::End]);
    assert_eq!(tokens.describe(), "fn, let or EOF");
}
