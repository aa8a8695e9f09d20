//! Operator precedence and associativity.

use vstd::prelude::*;
use crate::token::TokenKind;

verus! {

/// The table of binding powers. A higher power binds tighter.
pub struct BindingPower;

/// The left binding power of a postfix operator: member access, indexing
/// and calls bind tighter than every infix operator.
pub open spec fn postfix_power(kind: TokenKind) -> Option<(u8, ())> {
    match kind {
        TokenKind::LeftBracket | TokenKind::Arrow | TokenKind::LeftParen => Some((100u8, ())),
        _ => None,
    }
}

/// The left and right binding powers of an infix operator. A
/// left-associative operator has a right power one above its left power;
/// assignment and the fat arrow associate to the right.
pub open spec fn infix_power(kind: TokenKind) -> Option<(u8, u8)> {
    match kind {
        TokenKind::Asterisk | TokenKind::Slash => Some((98u8, 99u8)),
        TokenKind::BitwiseLeftShift | TokenKind::BitwiseRightShift => Some((96u8, 97u8)),
        TokenKind::BitwiseAnd => Some((94u8, 95u8)),
        TokenKind::BitwiseXor => Some((92u8, 93u8)),
        TokenKind::BitwiseOr => Some((90u8, 91u8)),
        TokenKind::Plus | TokenKind::Minus | TokenKind::Period => Some((88u8, 89u8)),
        TokenKind::And => Some((86u8, 87u8)),
        TokenKind::Or => Some((84u8, 85u8)),
        TokenKind::GreaterThan
        | TokenKind::LessThan
        | TokenKind::GreaterThanEquals
        | TokenKind::LessThanEquals => Some((7u8, 8u8)),
        TokenKind::Equals | TokenKind::DoubleArrow => Some((2u8, 1u8)),
        _ => None,
    }
}

/// The right binding power of a prefix operator: above every infix
/// operator and below the postfix operators.
pub open spec fn prefix_power(kind: TokenKind) -> Option<((), u8)> {
    match kind {
        TokenKind::Minus | TokenKind::Not | TokenKind::BitwiseNot => Some(((), 99u8)),
        _ => None,
    }
}

impl BindingPower {
    pub fn postfix(kind: TokenKind) -> (r: Option<(u8, ())>)
        ensures
            r == postfix_power(kind),
    {
        match kind {
            TokenKind::LeftBracket | TokenKind::Arrow | TokenKind::LeftParen => Some((100, ())),
            _ => None,
        }
    }

    pub fn infix(kind: TokenKind) -> (r: Option<(u8, u8)>)
        ensures
            r == infix_power(kind),
    {
        match kind {
            TokenKind::Asterisk | TokenKind::Slash => Some((98, 99)),
            TokenKind::BitwiseLeftShift | TokenKind::BitwiseRightShift => Some((96, 97)),
            TokenKind::BitwiseAnd => Some((94, 95)),
            TokenKind::BitwiseXor => Some((92, 93)),
            TokenKind::BitwiseOr => Some((90, 91)),
            TokenKind::Plus | TokenKind::Minus | TokenKind::Period => Some((88, 89)),
            TokenKind::And => Some((86, 87)),
            TokenKind::Or => Some((84, 85)),
            TokenKind::GreaterThan
            | TokenKind::LessThan
            | TokenKind::GreaterThanEquals
            | TokenKind::LessThanEquals => Some((7, 8)),
            TokenKind::Equals | TokenKind::DoubleArrow => Some((2, 1)),
            _ => None,
        }
    }

    pub fn prefix(kind: TokenKind) -> (r: Option<((), u8)>)
        ensures
            r == prefix_power(kind),
    {
        match kind {
            TokenKind::Minus | TokenKind::Not | TokenKind::BitwiseNot => Some(((), 99)),
            _ => None,
        }
    }
}

} // verus!
