//! The glyph table: the constant mapping between the language's operator
//! and structural glyphs and their zero-payload tokens, in both directions.

use crate::tokenizer::Token;
use vstd::prelude::*;

verus! {

/// The token a recognized glyph denotes, `None` for any other character.
pub open spec fn glyph_of(c: char) -> Option<Token> {
    if c == '+' {
        Some(Token::Plus)
    } else if c == '-' {
        Some(Token::Minus)
    } else if c == '×' {
        Some(Token::Times)
    } else if c == '÷' {
        Some(Token::Divide)
    } else if c == '⌈' {
        Some(Token::Upstile)
    } else if c == '⌊' {
        Some(Token::Downstile)
    } else if c == '*' {
        Some(Token::Star)
    } else if c == '!' {
        Some(Token::ExclamationMark)
    } else if c == '|' {
        Some(Token::Stile)
    } else if c == '⍟' {
        Some(Token::Log)
    } else if c == '○' {
        Some(Token::Circle)
    } else if c == '⌹' {
        Some(Token::Domino)
    } else if c == '⊥' {
        Some(Token::UpTack)
    } else if c == '⊤' {
        Some(Token::DownTack)
    } else if c == '?' {
        Some(Token::QuestionMark)
    } else if c == '~' {
        Some(Token::Tilde)
    } else if c == '∧' {
        Some(Token::LogicalAND)
    } else if c == '∨' {
        Some(Token::LogicalOR)
    } else if c == '⍲' {
        Some(Token::LogicalNAND)
    } else if c == '⍱' {
        Some(Token::LogicalNOR)
    } else if c == '<' {
        Some(Token::LessThan)
    } else if c == '>' {
        Some(Token::GreaterThan)
    } else if c == '≤' {
        Some(Token::LessThanOrEqualTo)
    } else if c == '≥' {
        Some(Token::GreaterThanOrEqualTo)
    } else if c == '=' {
        Some(Token::Equal)
    } else if c == '≠' {
        Some(Token::NotEqual)
    } else if c == '≡' {
        Some(Token::EqualUnderbar)
    } else if c == '≢' {
        Some(Token::EqualUnderbarSlash)
    } else if c == '⍴' {
        Some(Token::Rho)
    } else if c == ',' {
        Some(Token::Comma)
    } else if c == '⍪' {
        Some(Token::CommaBar)
    } else if c == '⌽' {
        Some(Token::CircleStile)
    } else if c == '⊖' {
        Some(Token::CircleBar)
    } else if c == '⍉' {
        Some(Token::Transpose)
    } else if c == '↑' {
        Some(Token::UpArrow)
    } else if c == '↓' {
        Some(Token::DownArrow)
    } else if c == '⊂' {
        Some(Token::LeftShoe)
    } else if c == '⊆' {
        Some(Token::LeftShoeUnderbar)
    } else if c == '∊' {
        Some(Token::Epsilon)
    } else if c == '⌷' {
        Some(Token::Squad)
    } else if c == '⊃' {
        Some(Token::RightShoe)
    } else if c == '/' {
        Some(Token::Slash)
    } else if c == '⌿' {
        Some(Token::SlashBar)
    } else if c == '\\' {
        Some(Token::Backslash)
    } else if c == '⍀' {
        Some(Token::BackslashBar)
    } else if c == '∪' {
        Some(Token::DownShoe)
    } else if c == '∩' {
        Some(Token::UpShoe)
    } else if c == '⊣' {
        Some(Token::LeftTack)
    } else if c == '⊢' {
        Some(Token::RightTack)
    } else if c == '⍳' {
        Some(Token::Iota)
    } else if c == '⍸' {
        Some(Token::IotaUnderbar)
    } else if c == '⍷' {
        Some(Token::EpsilonUnderbar)
    } else if c == '⍋' {
        Some(Token::GradeUp)
    } else if c == '⍒' {
        Some(Token::GradeDown)
    } else if c == '¨' {
        Some(Token::Diaeresis)
    } else if c == '⍨' {
        Some(Token::TildeDiaeresis)
    } else if c == '⍣' {
        Some(Token::StarDiaeresis)
    } else if c == '.' {
        Some(Token::Dot)
    } else if c == '∘' {
        Some(Token::Jot)
    } else if c == '⌸' {
        Some(Token::QuadEqual)
    } else if c == '⍤' {
        Some(Token::JotDiaeresis)
    } else if c == '⍥' {
        Some(Token::CircleDieresis)
    } else if c == '⌺' {
        Some(Token::QuadDiamond)
    } else if c == '@' {
        Some(Token::At)
    } else if c == '⍠' {
        Some(Token::QuadColon)
    } else if c == '←' {
        Some(Token::LeftArrow)
    } else if c == '⍬' {
        Some(Token::Zilde)
    } else if c == '⍎' {
        Some(Token::Hydrant)
    } else if c == '⍕' {
        Some(Token::Thorn)
    } else if c == '⋄' {
        Some(Token::Diamond)
    } else if c == '∇' {
        Some(Token::Del)
    } else if c == '⍺' {
        Some(Token::Alpha)
    } else if c == '⍵' {
        Some(Token::Omega)
    } else if c == '{' {
        Some(Token::OpenCurlyBracket)
    } else if c == '}' {
        Some(Token::CloseCurlyBracket)
    } else if c == '(' {
        Some(Token::OpenRoundBracket)
    } else if c == ')' {
        Some(Token::CloseRoundBracket)
    } else if c == '[' {
        Some(Token::OpenSquareBracket)
    } else if c == ']' {
        Some(Token::CloseSquareBracket)
    } else if c == ':' {
        Some(Token::Colon)
    } else {
        None
    }
}

/// The glyph a glyph token prints as; a space for any other token.
pub open spec fn glyph_char(t: Token) -> char {
    match t {
        Token::Plus => '+',
        Token::Minus => '-',
        Token::Times => '×',
        Token::Divide => '÷',
        Token::Upstile => '⌈',
        Token::Downstile => '⌊',
        Token::Star => '*',
        Token::ExclamationMark => '!',
        Token::Stile => '|',
        Token::Log => '⍟',
        Token::Circle => '○',
        Token::Domino => '⌹',
        Token::UpTack => '⊥',
        Token::DownTack => '⊤',
        Token::QuestionMark => '?',
        Token::Tilde => '~',
        Token::LogicalAND => '∧',
        Token::LogicalOR => '∨',
        Token::LogicalNAND => '⍲',
        Token::LogicalNOR => '⍱',
        Token::LessThan => '<',
        Token::GreaterThan => '>',
        Token::LessThanOrEqualTo => '≤',
        Token::GreaterThanOrEqualTo => '≥',
        Token::Equal => '=',
        Token::NotEqual => '≠',
        Token::EqualUnderbar => '≡',
        Token::EqualUnderbarSlash => '≢',
        Token::Rho => '⍴',
        Token::Comma => ',',
        Token::CommaBar => '⍪',
        Token::CircleStile => '⌽',
        Token::CircleBar => '⊖',
        Token::Transpose => '⍉',
        Token::UpArrow => '↑',
        Token::DownArrow => '↓',
        Token::LeftShoe => '⊂',
        Token::LeftShoeUnderbar => '⊆',
        Token::Epsilon => '∊',
        Token::Squad => '⌷',
        Token::RightShoe => '⊃',
        Token::Slash => '/',
        Token::SlashBar => '⌿',
        Token::Backslash => '\\',
        Token::BackslashBar => '⍀',
        Token::DownShoe => '∪',
        Token::UpShoe => '∩',
        Token::LeftTack => '⊣',
        Token::RightTack => '⊢',
        Token::Iota => '⍳',
        Token::IotaUnderbar => '⍸',
        Token::EpsilonUnderbar => '⍷',
        Token::GradeUp => '⍋',
        Token::GradeDown => '⍒',
        Token::Diaeresis => '¨',
        Token::TildeDiaeresis => '⍨',
        Token::StarDiaeresis => '⍣',
        Token::Dot => '.',
        Token::Jot => '∘',
        Token::QuadEqual => '⌸',
        Token::JotDiaeresis => '⍤',
        Token::CircleDieresis => '⍥',
        Token::QuadDiamond => '⌺',
        Token::At => '@',
        Token::QuadColon => '⍠',
        Token::LeftArrow => '←',
        Token::Zilde => '⍬',
        Token::Hydrant => '⍎',
        Token::Thorn => '⍕',
        Token::Diamond => '⋄',
        Token::Del => '∇',
        Token::Alpha => '⍺',
        Token::Omega => '⍵',
        Token::OpenCurlyBracket => '{',
        Token::CloseCurlyBracket => '}',
        Token::OpenRoundBracket => '(',
        Token::CloseRoundBracket => ')',
        Token::OpenSquareBracket => '[',
        Token::CloseSquareBracket => ']',
        Token::Colon => ':',
        _ => ' ',
    }
}

/// Looks a character up in the glyph table.
pub fn glyph_token(c: char) -> (r: Option<Token>)
    ensures
        r == glyph_of(c),
{
    match c {
        '+' => Some(Token::Plus),
        '-' => Some(Token::Minus),
        '×' => Some(Token::Times),
        '÷' => Some(Token::Divide),
        '⌈' => Some(Token::Upstile),
        '⌊' => Some(Token::Downstile),
        '*' => Some(Token::Star),
        '!' => Some(Token::ExclamationMark),
        '|' => Some(Token::Stile),
        '⍟' => Some(Token::Log),
        '○' => Some(Token::Circle),
        '⌹' => Some(Token::Domino),
        '⊥' => Some(Token::UpTack),
        '⊤' => Some(Token::DownTack),
        '?' => Some(Token::QuestionMark),
        '~' => Some(Token::Tilde),
        '∧' => Some(Token::LogicalAND),
        '∨' => Some(Token::LogicalOR),
        '⍲' => Some(Token::LogicalNAND),
        '⍱' => Some(Token::LogicalNOR),
        '<' => Some(Token::LessThan),
        '>' => Some(Token::GreaterThan),
        '≤' => Some(Token::LessThanOrEqualTo),
        '≥' => Some(Token::GreaterThanOrEqualTo),
        '=' => Some(Token::Equal),
        '≠' => Some(Token::NotEqual),
        '≡' => Some(Token::EqualUnderbar),
        '≢' => Some(Token::EqualUnderbarSlash),
        '⍴' => Some(Token::Rho),
        ',' => Some(Token::Comma),
        '⍪' => Some(Token::CommaBar),
        '⌽' => Some(Token::CircleStile),
        '⊖' => Some(Token::CircleBar),
        '⍉' => Some(Token::Transpose),
        '↑' => Some(Token::UpArrow),
        '↓' => Some(Token::DownArrow),
        '⊂' => Some(Token::LeftShoe),
        '⊆' => Some(Token::LeftShoeUnderbar),
        '∊' => Some(Token::Epsilon),
        '⌷' => Some(Token::Squad),
        '⊃' => Some(Token::RightShoe),
        '/' => Some(Token::Slash),
        '⌿' => Some(Token::SlashBar),
        '\\' => Some(Token::Backslash),
        '⍀' => Some(Token::BackslashBar),
        '∪' => Some(Token::DownShoe),
        '∩' => Some(Token::UpShoe),
        '⊣' => Some(Token::LeftTack),
        '⊢' => Some(Token::RightTack),
        '⍳' => Some(Token::Iota),
        '⍸' => Some(Token::IotaUnderbar),
        '⍷' => Some(Token::EpsilonUnderbar),
        '⍋' => Some(Token::GradeUp),
        '⍒' => Some(Token::GradeDown),
        '¨' => Some(Token::Diaeresis),
        '⍨' => Some(Token::TildeDiaeresis),
        '⍣' => Some(Token::StarDiaeresis),
        '.' => Some(Token::Dot),
        '∘' => Some(Token::Jot),
        '⌸' => Some(Token::QuadEqual),
        '⍤' => Some(Token::JotDiaeresis),
        '⍥' => Some(Token::CircleDieresis),
        '⌺' => Some(Token::QuadDiamond),
        '@' => Some(Token::At),
        '⍠' => Some(Token::QuadColon),
        '←' => Some(Token::LeftArrow),
        '⍬' => Some(Token::Zilde),
        '⍎' => Some(Token::Hydrant),
        '⍕' => Some(Token::Thorn),
        '⋄' => Some(Token::Diamond),
        '∇' => Some(Token::Del),
        '⍺' => Some(Token::Alpha),
        '⍵' => Some(Token::Omega),
        '{' => Some(Token::OpenCurlyBracket),
        '}' => Some(Token::CloseCurlyBracket),
        '(' => Some(Token::OpenRoundBracket),
        ')' => Some(Token::CloseRoundBracket),
        '[' => Some(Token::OpenSquareBracket),
        ']' => Some(Token::CloseSquareBracket),
        ':' => Some(Token::Colon),
        _ => None,
    }
}

/// Prints a glyph token back as its character.
pub fn glyph_char_of(t: &Token) -> (c: char)
    ensures
        c == glyph_char(*t),
{
    match t {
        Token::Plus => '+',
        Token::Minus => '-',
        Token::Times => '×',
        Token::Divide => '÷',
        Token::Upstile => '⌈',
        Token::Downstile => '⌊',
        Token::Star => '*',
        Token::ExclamationMark => '!',
        Token::Stile => '|',
        Token::Log => '⍟',
        Token::Circle => '○',
        Token::Domino => '⌹',
        Token::UpTack => '⊥',
        Token::DownTack => '⊤',
        Token::QuestionMark => '?',
        Token::Tilde => '~',
        Token::LogicalAND => '∧',
        Token::LogicalOR => '∨',
        Token::LogicalNAND => '⍲',
        Token::LogicalNOR => '⍱',
        Token::LessThan => '<',
        Token::GreaterThan => '>',
        Token::LessThanOrEqualTo => '≤',
        Token::GreaterThanOrEqualTo => '≥',
        Token::Equal => '=',
        Token::NotEqual => '≠',
        Token::EqualUnderbar => '≡',
        Token::EqualUnderbarSlash => '≢',
        Token::Rho => '⍴',
        Token::Comma => ',',
        Token::CommaBar => '⍪',
        Token::CircleStile => '⌽',
        Token::CircleBar => '⊖',
        Token::Transpose => '⍉',
        Token::UpArrow => '↑',
        Token::DownArrow => '↓',
        Token::LeftShoe => '⊂',
        Token::LeftShoeUnderbar => '⊆',
        Token::Epsilon => '∊',
        Token::Squad => '⌷',
        Token::RightShoe => '⊃',
        Token::Slash => '/',
        Token::SlashBar => '⌿',
        Token::Backslash => '\\',
        Token::BackslashBar => '⍀',
        Token::DownShoe => '∪',
        Token::UpShoe => '∩',
        Token::LeftTack => '⊣',
        Token::RightTack => '⊢',
        Token::Iota => '⍳',
        Token::IotaUnderbar => '⍸',
        Token::EpsilonUnderbar => '⍷',
        Token::GradeUp => '⍋',
        Token::GradeDown => '⍒',
        Token::Diaeresis => '¨',
        Token::TildeDiaeresis => '⍨',
        Token::StarDiaeresis => '⍣',
        Token::Dot => '.',
        Token::Jot => '∘',
        Token::QuadEqual => '⌸',
        Token::JotDiaeresis => '⍤',
        Token::CircleDieresis => '⍥',
        Token::QuadDiamond => '⌺',
        Token::At => '@',
        Token::QuadColon => '⍠',
        Token::LeftArrow => '←',
        Token::Zilde => '⍬',
        Token::Hydrant => '⍎',
        Token::Thorn => '⍕',
        Token::Diamond => '⋄',
        Token::Del => '∇',
        Token::Alpha => '⍺',
        Token::Omega => '⍵',
        Token::OpenCurlyBracket => '{',
        Token::CloseCurlyBracket => '}',
        Token::OpenRoundBracket => '(',
        Token::CloseRoundBracket => ')',
        Token::OpenSquareBracket => '[',
        Token::CloseSquareBracket => ']',
        Token::Colon => ':',
        _ => ' ',
    }
}

} // verus!
