use apl_frontend::tokenizer::{tokenize, Token};

#[test]
fn it_works() {
    let glyphs = "+-×÷⌈⌊*!|⍟○⌹⊥⊤?~∧∨⍲⍱<>≤≥=≠≡≢⍴,⍪⌽⊖⍉↑↓⊂⊆∊⌷⊃/⌿\\⍀∪∩⊣⊢⍳⍸⍷⍋⍒¨⍨⍣.∘⌸⍤⍥⌺@⍠←⍬⍎⍕⋄∇⍺⍵:([{)]}";
    let stream = tokenize(glyphs.to_string()).unwrap();
    let count = glyphs.chars().count();
    assert_eq!(count + 1, stream.len());
    for (idx, (token, loc)) in stream.iter().enumerate() {
        if idx < count {
            assert_eq!(1, loc.line);
            assert_eq!(idx + 1, loc.col);
            assert!(!matches!(token, Token::Identifier(_)));
            assert!(!matches!(token, Token::EOF));
        } else {
            assert_eq!(&Token::EOF, token);
        }
    }
}
