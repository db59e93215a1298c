use apl_frontend::bracket_partitioner::{deserialize_to_string, tokenize_to_partition, Partitioner,
    StructuralError};
use apl_frontend::tokenizer::{tokenize, Loc, Token};
use apl_frontend::typing::nameclass_map_extractor::construct_nameclass_map;

#[test]
fn it_partitions() {
    let stream = tokenize(
        "nDCube ← {v←⍵ ⋄ ⍺{⍺=1:v/⍵ ⋄ v/[⍺-1] (⍺-1) ∇ ⍵} (⍺/⍵) ⍴ ⍳⍵*⍺}\nnDCube ← {v←⍵ ⋄ ⍺{⍺=1:v/⍵ ⋄ v/[⍺-1] (⍺-1) ∇ ⍵} (⍺/⍵) ⍴ ⍳⍵*⍺}".to_string(),
    )
    .unwrap();

    println!("{:?}", tokenize_to_partition(stream).unwrap());
}

#[test]
fn experiment_simple() {
    let stream = tokenize(
        "nDCube ← {v←⍵ ⋄ ⍺{⍺=1:v/⍵ ⋄ v/[⍺-1] (⍺-1) ∇ ⍵} (⍺/⍵) ⍴ ⍳⍵*⍺}\nnDCube ← {v←⍵ ⋄ ⍺{⍺=1:v/⍵ ⋄ v/[⍺-1] (⍺-1) ∇ ⍵} (⍺/⍵) ⍴ ⍳⍵*⍺}".to_string(),
    )
    .unwrap();

    println!("{:?}", tokenize_to_partition(stream).unwrap());
}

fn loc(line: usize, col: usize) -> Loc {
    Loc { line, col }
}

fn ident(name: &str) -> Token {
    Token::Identifier(name.to_string())
}

#[test]
fn diamond_separates_expressions_within_one_statement() {
    let tree = tokenize_to_partition(tokenize("A⋄B\n".to_string()).unwrap()).unwrap();
    let expected = vec![Partitioner::Statement(vec![
        Partitioner::Expression(vec![(ident("A"), loc(1, 1))]),
        Partitioner::ExpressionSeperator,
        Partitioner::Expression(vec![(ident("B"), loc(1, 3))]),
    ])];
    assert_eq!(expected, tree);
}

#[test]
fn newlines_delimit_statements() {
    let tree = tokenize_to_partition(tokenize("A\nB\n".to_string()).unwrap()).unwrap();
    let expected = vec![
        Partitioner::Statement(vec![Partitioner::Expression(vec![(ident("A"), loc(1, 1))])]),
        Partitioner::Statement(vec![Partitioner::Expression(vec![(ident("B"), loc(2, 1))])]),
    ];
    assert_eq!(expected, tree);
}

#[test]
fn trailing_statement_without_newline_is_kept() {
    let tree = tokenize_to_partition(tokenize("A\nB".to_string()).unwrap()).unwrap();
    assert_eq!(2, tree.len());
}

#[test]
fn mismatched_closer_is_a_structural_error() {
    let err = tokenize_to_partition(tokenize("(]".to_string()).unwrap()).unwrap_err();
    assert_eq!(
        StructuralError { token: Token::CloseSquareBracket, loc: loc(1, 2) },
        err
    );
}

#[test]
fn unclosed_container_fails_at_end_of_input() {
    let err = tokenize_to_partition(tokenize("A(B".to_string()).unwrap()).unwrap_err();
    assert_eq!(StructuralError { token: Token::EOF, loc: loc(1, 4) }, err);
}

#[test]
fn containers_nest_between_expressions() {
    let tree = tokenize_to_partition(tokenize("A(B)C\n".to_string()).unwrap()).unwrap();
    let expected = vec![Partitioner::Statement(vec![
        Partitioner::Expression(vec![(ident("A"), loc(1, 1))]),
        Partitioner::RoundContainer(vec![Partitioner::Statement(vec![Partitioner::Expression(
            vec![(ident("B"), loc(1, 3))],
        )])]),
        Partitioner::Expression(vec![(ident("C"), loc(1, 5))]),
    ])];
    assert_eq!(expected, tree);
}

#[test]
fn empty_input_partitions_to_nothing() {
    let tree = tokenize_to_partition(tokenize(String::new()).unwrap()).unwrap();
    assert!(tree.is_empty());
}

#[test]
fn inner_mismatch_propagates_unchanged() {
    let err = tokenize_to_partition(tokenize("{[(})]\n".to_string()).unwrap()).unwrap_err();
    assert_eq!(
        StructuralError { token: Token::CloseCurlyBracket, loc: loc(1, 4) },
        err
    );
}

#[test]
fn deserializing_is_a_stub() {
    let tree = tokenize_to_partition(tokenize("A\n".to_string()).unwrap()).unwrap();
    assert_eq!("", deserialize_to_string(tree));
}

#[test]
fn nameclass_extraction_consumes_a_partition() {
    let tree = tokenize_to_partition(tokenize("A(B)C\n".to_string()).unwrap()).unwrap();
    construct_nameclass_map(&tree);
}

#[test]
fn blank_lines_produce_no_statements() {
    let tree = tokenize_to_partition(tokenize("A\n\n\nB\n".to_string()).unwrap()).unwrap();
    assert_eq!(2, tree.len());
}

#[test]
fn diamond_alone_still_opens_a_statement() {
    let tree = tokenize_to_partition(tokenize("⋄\n".to_string()).unwrap()).unwrap();
    let expected = vec![Partitioner::Statement(vec![
        Partitioner::Expression(vec![]),
        Partitioner::ExpressionSeperator,
    ])];
    assert_eq!(expected, tree);
}
