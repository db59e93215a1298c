use apl_frontend::numeric_literal::NumericLiteral;
use apl_frontend::tokenizer::{destream, destream_loc_indicators, tokenize, LexicalError, Loc,
    Token};
use apl_frontend::errors::BaseErr;

#[test]
fn it_tokenizes() {
    println!(
        "{:?}",
        destream(
            tokenize(
                "nDCube ← {v←⍵ ⋄ ⍺{⍺=1u4:v/⍵ ⋄ v/[⍺-1] (⍺-1) ∇ ⍵} (⍺/⍵) ⍴ ⍳⍵*⍺}".to_string(),
            )
            .unwrap()
        )
    );
}

fn print_locs(src: String) {
    println!("{}", src);

    let stream = tokenize(src).unwrap();

    println!("{}", destream_loc_indicators(stream.clone()));
    println!("{:?}", stream);
}

#[test]
fn it_places_locs_correctly() {
    let src = "nDCube ← {v←⍵ ⋄ ⍺{⍺=1u4:v/⍵ ⋄ v/[⍺-1] (⍺-1) ∇ ⍵} (⍺/⍵) ⍴ ⍳⍵*⍺}".to_string();
    print_locs(src);

    let src = "π ← ○ 1".to_string();
    print_locs(src);
}

#[test]
fn it_tokenizes_literal() {
    println!(
        "{:?}",
        destream(tokenize("('Aleth' 'xheta') (1u8 2f 1b)".to_string()).unwrap())
    );
}

fn loc(line: usize, col: usize) -> Loc {
    Loc { line, col }
}

fn auto_lit(text: &str) -> NumericLiteral {
    text.parse::<NumericLiteral>().unwrap()
}

#[test]
fn stamps_locations_per_consumed_character() {
    let stream = tokenize("π ← ○ 1".to_string()).unwrap();
    let expected = vec![
        (Token::Identifier("π".to_string()), loc(1, 1)),
        (Token::LeftArrow, loc(1, 3)),
        (Token::Circle, loc(1, 5)),
        (Token::NumericLiteral(auto_lit("1")), loc(1, 7)),
        (Token::EOF, loc(1, 8)),
    ];
    assert_eq!(expected, stream);
}

#[test]
fn newlines_advance_lines_and_end_with_eof() {
    let stream = tokenize("+\n-".to_string()).unwrap();
    let expected = vec![
        (Token::Plus, loc(1, 1)),
        (Token::NL, loc(1, 2)),
        (Token::Minus, loc(2, 1)),
        (Token::EOF, loc(2, 2)),
    ];
    assert_eq!(expected, stream);

    let empty = tokenize(String::new()).unwrap();
    assert_eq!(vec![(Token::EOF, loc(1, 1))], empty);
}

#[test]
fn scans_string_literals_with_escapes() {
    let stream = tokenize("'Aleth'".to_string()).unwrap();
    assert_eq!(Token::StringLiteral("Aleth".to_string()), stream[0].0);

    let stream = tokenize("'a\\nb'".to_string()).unwrap();
    assert_eq!(Token::StringLiteral("a\nb".to_string()), stream[0].0);

    let stream = tokenize("'a\\'b'".to_string()).unwrap();
    assert_eq!(Token::StringLiteral("a'b".to_string()), stream[0].0);

    let stream = tokenize("'a\\\nb'".to_string()).unwrap();
    assert_eq!(Token::StringLiteral("a\nb".to_string()), stream[0].0);
}

#[test]
fn reports_lexical_failures_with_locations() {
    assert_eq!(
        LexicalError::UnexpectedToken(Token::EOF, loc(1, 4)),
        tokenize("'ab".to_string()).unwrap_err()
    );
    assert_eq!(
        LexicalError::UnexpectedToken(Token::NL, loc(1, 3)),
        tokenize("'a\nb'".to_string()).unwrap_err()
    );
    assert_eq!(
        LexicalError::IllegalEscape('x', loc(1, 4)),
        tokenize("'a\\xb'".to_string()).unwrap_err()
    );
    assert_eq!(
        LexicalError::BadNumericLiteral(BaseErr::new("invalid f64 value"), loc(1, 1)),
        tokenize("1J".to_string()).unwrap_err()
    );
}

#[test]
fn destreaming_separates_adjacent_numeric_literals() {
    let stream = vec![
        (Token::NumericLiteral(NumericLiteral::SysUint(1)), loc(1, 1)),
        (Token::NumericLiteral(NumericLiteral::SysUint(2)), loc(1, 2)),
    ];
    let text = destream(stream);
    assert_eq!("1u 2u", text);

    let again = tokenize(text).unwrap();
    assert_eq!(Token::NumericLiteral(NumericLiteral::SysUint(1)), again[0].0);
    assert_eq!(Token::NumericLiteral(NumericLiteral::SysUint(2)), again[1].0);
    assert_eq!(Token::EOF, again[2].0);
}

#[test]
fn destreaming_then_tokenizing_reproduces_the_tokens() {
    let first = tokenize("1u4 2 ⍳3\n'ab' 'cd'".to_string()).unwrap();
    let second = tokenize(destream(first.clone())).unwrap();
    let first_tokens: Vec<Token> = first.into_iter().map(|p| p.0).collect();
    let second_tokens: Vec<Token> = second.into_iter().map(|p| p.0).collect();
    assert_eq!(first_tokens, second_tokens);
}

#[test]
fn location_text_is_line_colon_column() {
    assert_eq!("3:17", loc(3, 17).to_text());
}

#[test]
fn indicator_grid_marks_token_kinds() {
    let grid = destream_loc_indicators(tokenize("π ← (1)".to_string()).unwrap());
    assert_eq!("i ^ (n)^", grid);
}
