//! Binary operators.

use vstd::prelude::*;
use crate::token::TokenKind;

verus! {

/// The operator of a binary expression.
#[derive(Clone, Copy, Debug, PartialEq, Eq, Hash, Structural)]
pub enum BinaryOp {
    Add,
    Subtract,
    Multiply,
    Divide,
    Modulo,
    BitwiseAnd,
    BitwiseOr,
    BitwiseLeftShift,
    BitwiseRightShift,
    BitwiseXor,
    And,
    Or,
    LessThan,
    GreaterThan,
    LessThanEquals,
    GreaterThanEquals,
}

/// The binary operator that a token kind denotes, if it denotes one.
pub open spec fn binary_op_of(kind: TokenKind) -> Option<BinaryOp> {
    match kind {
        TokenKind::Plus => Some(BinaryOp::Add),
        TokenKind::Minus => Some(BinaryOp::Subtract),
        TokenKind::Asterisk => Some(BinaryOp::Multiply),
        TokenKind::Slash => Some(BinaryOp::Divide),
        TokenKind::Percent => Some(BinaryOp::Modulo),
        TokenKind::BitwiseAnd => Some(BinaryOp::BitwiseAnd),
        TokenKind::BitwiseOr => Some(BinaryOp::BitwiseOr),
        TokenKind::BitwiseLeftShift => Some(BinaryOp::BitwiseLeftShift),
        TokenKind::BitwiseRightShift => Some(BinaryOp::BitwiseRightShift),
        TokenKind::BitwiseXor => Some(BinaryOp::BitwiseXor),
        TokenKind::And => Some(BinaryOp::And),
        TokenKind::Or => Some(BinaryOp::Or),
        TokenKind::GreaterThan => Some(BinaryOp::GreaterThan),
        TokenKind::LessThan => Some(BinaryOp::LessThan),
        TokenKind::GreaterThanEquals => Some(BinaryOp::GreaterThanEquals),
        TokenKind::LessThanEquals => Some(BinaryOp::LessThanEquals),
        _ => None,
    }
}

impl BinaryOp {
    /// The operator that `kind` denotes. Only an operator token has one.
    pub fn from(kind: TokenKind) -> (op: BinaryOp)
        requires
            binary_op_of(kind) is Some,
        ensures
            binary_op_of(kind) == Some(op),
    {
        match kind {
            TokenKind::Plus => BinaryOp::Add,
            TokenKind::Minus => BinaryOp::Subtract,
            TokenKind::Asterisk => BinaryOp::Multiply,
            TokenKind::Slash => BinaryOp::Divide,
            TokenKind::Percent => BinaryOp::Modulo,
            TokenKind::BitwiseAnd => BinaryOp::BitwiseAnd,
            TokenKind::BitwiseOr => BinaryOp::BitwiseOr,
            TokenKind::BitwiseLeftShift => BinaryOp::BitwiseLeftShift,
            TokenKind::BitwiseRightShift => BinaryOp::BitwiseRightShift,
            TokenKind::BitwiseXor => BinaryOp::BitwiseXor,
            TokenKind::And => BinaryOp::And,
            TokenKind::Or => BinaryOp::Or,
            TokenKind::GreaterThan => BinaryOp::GreaterThan,
            TokenKind::LessThan => BinaryOp::LessThan,
            TokenKind::GreaterThanEquals => BinaryOp::GreaterThanEquals,
            TokenKind::LessThanEquals => BinaryOp::LessThanEquals,
            _ => unreached(),
        }
    }
}

} // verus!
