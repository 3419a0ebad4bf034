//! Typed views of argument tokens: the small conversions the opcode
//! resolvers use to demand a register, an identifier or an integer in a
//! given argument position.

use vstd::prelude::*;

use crate::lexer::Node;
use crate::lexer::NodeV;
use crate::lexer::Token;
use crate::lexer::TokenV;
use crate::parser::ParserError;
use crate::parser::ParserErrorV;

verus! {

/// A register operand.
pub struct Register(pub usize);

/// An identifier operand.
pub struct Ident(pub String);

/// An immediate integer operand.
pub struct Int(pub i32);

/// The register index a token denotes, or the kind error it earns.
pub open spec fn spec_register(t: NodeV<TokenV>) -> Result<usize, ParserErrorV> {
    match t.expr {
        TokenV::Register(r) => Ok(r),
        other => Err(ParserErrorV::ArgumentInvalid { token: other }),
    }
}

/// The identifier a token denotes, or the kind error it earns.
pub open spec fn spec_ident(t: NodeV<TokenV>) -> Result<Seq<char>, ParserErrorV> {
    match t.expr {
        TokenV::Ident(s) => Ok(s),
        other => Err(ParserErrorV::ArgumentInvalid { token: other }),
    }
}

/// The immediate integer a token denotes, or the kind error it earns.
pub open spec fn spec_int(t: NodeV<TokenV>) -> Result<i32, ParserErrorV> {
    match t.expr {
        TokenV::Int(v) => Ok(v),
        other => Err(ParserErrorV::ArgumentInvalid { token: other }),
    }
}

impl Register {
    /// Demand a register token.
    pub fn try_from(value: &Node<Token>) -> (r: Result<Register, ParserError>)
        ensures
            (match r {
                Ok(reg) => spec_register(value@) == Ok::<usize, ParserErrorV>(reg.0),
                Err(e) => spec_register(value@) == Err::<usize, ParserErrorV>(e@),
            }),
    {
        match &value.expr {
            Token::Register(reg) => Ok(Register(*reg)),
            tok => Err(ParserError::ArgumentInvalid { token: tok.clone() }),
        }
    }
}

impl Ident {
    /// Demand an identifier token.
    pub fn try_from(value: &Node<Token>) -> (r: Result<Ident, ParserError>)
        ensures
            (match r {
                Ok(id) => spec_ident(value@) == Ok::<Seq<char>, ParserErrorV>(id.0@),
                Err(e) => spec_ident(value@) == Err::<Seq<char>, ParserErrorV>(e@),
            }),
    {
        match &value.expr {
            Token::Ident(name) => Ok(Ident(name.clone())),
            tok => Err(ParserError::ArgumentInvalid { token: tok.clone() }),
        }
    }
}

impl Int {
    /// Demand an immediate integer token.
    pub fn try_from(value: &Node<Token>) -> (r: Result<Int, ParserError>)
        ensures
            (match r {
                Ok(v) => spec_int(value@) == Ok::<i32, ParserErrorV>(v.0),
                Err(e) => spec_int(value@) == Err::<i32, ParserErrorV>(e@),
            }),
    {
        match &value.expr {
            Token::Int(v) => Ok(Int(*v)),
            tok => Err(ParserError::ArgumentInvalid { token: tok.clone() }),
        }
    }
}

} // verus!
