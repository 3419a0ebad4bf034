//! The opcode resolvers: one small converter per instruction family,
//! turning a mnemonic's argument tokens (and, where targets or constants
//! are named, the symbol table) into exactly one instruction or a precise
//! compile error.

use vstd::prelude::*;

use crate::instruction::Instruction;
use crate::lexer::nodes_view;
use crate::lexer::Node;
use crate::lexer::NodeV;
use crate::lexer::Token;
use crate::lexer::TokenV;
use crate::parser::ParserError;
use crate::parser::ParserErrorV;
use crate::symbol::SymbolTable;
use crate::symbol::SymbolTypeV;
use crate::text::str_eq;
use crate::token::spec_ident;
use crate::token::spec_int;
use crate::token::spec_register;
use crate::token::Ident;
use crate::token::Int;
use crate::token::Register;

verus! {

/// The label index an identifier resolves to: a missing symbol and a
/// symbol of the wrong kind fail distinctly.
pub open spec fn spec_label_lookup(st: Map<Seq<char>, SymbolTypeV>, name: Seq<char>) -> Result<
    usize,
    ParserErrorV,
> {
    if !st.contains_key(name) {
        Err(ParserErrorV::SymbolUndefined(name))
    } else {
        match st[name] {
            SymbolTypeV::Label(o) => Ok(o),
            _ => Err(ParserErrorV::SymbolKindMismatch(name)),
        }
    }
}

/// The integer constant an identifier resolves to: a missing symbol and a
/// symbol of the wrong kind fail distinctly.
pub open spec fn spec_integer_lookup(st: Map<Seq<char>, SymbolTypeV>, name: Seq<char>) -> Result<
    i32,
    ParserErrorV,
> {
    if !st.contains_key(name) {
        Err(ParserErrorV::SymbolUndefined(name))
    } else {
        match st[name] {
            SymbolTypeV::Integer(v) => Ok(v),
            _ => Err(ParserErrorV::SymbolKindMismatch(name)),
        }
    }
}

fn label_lookup(st: &SymbolTable, name: Ident) -> (r: Result<usize, ParserError>)
    ensures
        (match r {
            Ok(v) => spec_label_lookup(st@, name.0@) == Ok::<usize, ParserErrorV>(v),
            Err(e) => spec_label_lookup(st@, name.0@) == Err::<usize, ParserErrorV>(e@),
        }),
{
    match st.get_offset(name.0.as_str()) {
        Some(v) => Ok(v),
        None => {
            if st.contains(name.0.as_str()) {
                Err(ParserError::SymbolKindMismatch(name.0))
            } else {
                Err(ParserError::SymbolUndefined(name.0))
            }
        },
    }
}

fn integer_lookup(st: &SymbolTable, name: Ident) -> (r: Result<i32, ParserError>)
    ensures
        (match r {
            Ok(v) => spec_integer_lookup(st@, name.0@) == Ok::<i32, ParserErrorV>(v),
            Err(e) => spec_integer_lookup(st@, name.0@) == Err::<i32, ParserErrorV>(e@),
        }),
{
    match st.get_integer(name.0.as_str()) {
        Some(v) => Ok(v),
        None => {
            if st.contains(name.0.as_str()) {
                Err(ParserError::SymbolKindMismatch(name.0))
            } else {
                Err(ParserError::SymbolUndefined(name.0))
            }
        },
    }
}

/// A resolved `call`.
pub struct Call<E>(pub E);

/// A resolved comparison.
pub struct Cmp<E>(pub E);

/// A resolved `inc`.
pub struct Inc<E>(pub E);

/// A resolved jump.
pub struct Jmp<E>(pub E);

/// A resolved `load`.
pub struct Load<E>(pub E);

/// A resolved `loop`.
pub struct Loop<E>(pub E);

/// A resolved `cloop`.
pub struct CLoop<E>(pub E);

/// A resolved arithmetic instruction.
pub struct Math<E>(pub E);

/// What `call` compiles to: one identifier argument naming a label.
pub open spec fn spec_call(
    args: Seq<NodeV<TokenV>>,
    st: Map<Seq<char>, SymbolTypeV>,
) -> Result<Instruction, ParserErrorV> {
    if args.len() != 1 {
        Err(ParserErrorV::ArgumentCountMismatch { expected: 1, got: args.len() as int })
    } else {
        match spec_ident(args[0]) {
            Err(e) => Err(e),
            Ok(name) => match spec_label_lookup(st, name) {
                Err(e) => Err(e),
                Ok(dst) => Ok(Instruction::CALL { dst }),
            },
        }
    }
}

impl Call<Instruction> {
    /// Resolve a `call` from its argument tokens and the symbol table.
    pub fn try_from(value: (Vec<Node<Token>>, &SymbolTable)) -> (r: Result<Self, ParserError>)
        ensures
            (match r {
                Ok(c) => spec_call(nodes_view(value.0@), value.1@) == Ok::<
                    Instruction,
                    ParserErrorV,
                >(c.0),
                Err(e) => spec_call(nodes_view(value.0@), value.1@) == Err::<
                    Instruction,
                    ParserErrorV,
                >(e@),
            }),
    {
        let (args, st) = value;
        if args.len() != 1 {
            return Err(ParserError::ArgumentCountMismatch { got: args.len(), expected: 1 });
        }
        let ident = match Ident::try_from(&args[0]) {
            Ok(x) => x,
            Err(e) => return Err(e),
        };
        match label_lookup(st, ident) {
            Ok(dst) => Ok(Call(Instruction::CALL { dst })),
            Err(e) => Err(e),
        }
    }
}

/// What a comparison compiles to: two register arguments and one of the
/// six comparison mnemonics.
pub open spec fn spec_cmp(op: Seq<char>, args: Seq<NodeV<TokenV>>) -> Result<
    Instruction,
    ParserErrorV,
> {
    if args.len() != 2 {
        Err(ParserErrorV::ArgumentCountMismatch { expected: 2, got: args.len() as int })
    } else {
        match spec_register(args[0]) {
            Err(e) => Err(e),
            Ok(rl) => match spec_register(args[1]) {
                Err(e) => Err(e),
                Ok(rh) => {
                    if op == "eq"@ {
                        Ok(Instruction::EQ { rl, rh })
                    } else if op == "neq"@ {
                        Ok(Instruction::NEQ { rl, rh })
                    } else if op == "gte"@ {
                        Ok(Instruction::GTE { rl, rh })
                    } else if op == "lte"@ {
                        Ok(Instruction::LTE { rl, rh })
                    } else if op == "lt"@ {
                        Ok(Instruction::LT { rl, rh })
                    } else if op == "gt"@ {
                        Ok(Instruction::GT { rl, rh })
                    } else {
                        Err(ParserErrorV::OpUnknown(op))
                    }
                },
            },
        }
    }
}

impl Cmp<Instruction> {
    /// Resolve a comparison from its mnemonic and argument tokens.
    pub fn try_from(value: (&str, Vec<Node<Token>>)) -> (r: Result<Self, ParserError>)
        ensures
            (match r {
                Ok(c) => spec_cmp(value.0@, nodes_view(value.1@)) == Ok::<
                    Instruction,
                    ParserErrorV,
                >(c.0),
                Err(e) => spec_cmp(value.0@, nodes_view(value.1@)) == Err::<
                    Instruction,
                    ParserErrorV,
                >(e@),
            }),
    {
        let (op, args) = value;
        if args.len() != 2 {
            return Err(ParserError::ArgumentCountMismatch { expected: 2, got: args.len() });
        }
        let r0 = match Register::try_from(&args[0]) {
            Ok(x) => x,
            Err(e) => return Err(e),
        };
        let r1 = match Register::try_from(&args[1]) {
            Ok(x) => x,
            Err(e) => return Err(e),
        };
        if str_eq(op, "eq") {
            Ok(Cmp(Instruction::EQ { rl: r0.0, rh: r1.0 }))
        } else if str_eq(op, "neq") {
            Ok(Cmp(Instruction::NEQ { rl: r0.0, rh: r1.0 }))
        } else if str_eq(op, "gte") {
            Ok(Cmp(Instruction::GTE { rl: r0.0, rh: r1.0 }))
        } else if str_eq(op, "lte") {
            Ok(Cmp(Instruction::LTE { rl: r0.0, rh: r1.0 }))
        } else if str_eq(op, "lt") {
            Ok(Cmp(Instruction::LT { rl: r0.0, rh: r1.0 }))
        } else if str_eq(op, "gt") {
            Ok(Cmp(Instruction::GT { rl: r0.0, rh: r1.0 }))
        } else {
            Err(ParserError::OpUnknown(op.to_owned()))
        }
    }
}

/// What `inc` compiles to: one register argument.
pub open spec fn spec_inc(args: Seq<NodeV<TokenV>>) -> Result<Instruction, ParserErrorV> {
    if args.len() != 1 {
        Err(ParserErrorV::ArgumentCountMismatch { expected: 1, got: args.len() as int })
    } else {
        match spec_register(args[0]) {
            Err(e) => Err(e),
            Ok(r) => Ok(Instruction::INC { r }),
        }
    }
}

impl Inc<Instruction> {
    /// Resolve an `inc` from its argument tokens.
    pub fn try_from(value: (Vec<Node<Token>>, &SymbolTable)) -> (r: Result<Self, ParserError>)
        ensures
            (match r {
                Ok(c) => spec_inc(nodes_view(value.0@)) == Ok::<Instruction, ParserErrorV>(c.0),
                Err(e) => spec_inc(nodes_view(value.0@)) == Err::<Instruction, ParserErrorV>(e@),
            }),
    {
        let (args, _st) = value;
        if args.len() != 1 {
            return Err(ParserError::ArgumentCountMismatch { expected: 1, got: args.len() });
        }
        let reg = match Register::try_from(&args[0]) {
            Ok(x) => x,
            Err(e) => return Err(e),
        };
        Ok(Inc(Instruction::INC { r: reg.0 }))
    }
}

/// What a jump compiles to: one identifier argument naming a label, and
/// one of the three jump mnemonics.
pub open spec fn spec_jmp(
    op: Seq<char>,
    args: Seq<NodeV<TokenV>>,
    st: Map<Seq<char>, SymbolTypeV>,
) -> Result<Instruction, ParserErrorV> {
    if args.len() != 1 {
        Err(ParserErrorV::ArgumentCountMismatch { expected: 1, got: args.len() as int })
    } else {
        match spec_ident(args[0]) {
            Err(e) => Err(e),
            Ok(name) => match spec_label_lookup(st, name) {
                Err(e) => Err(e),
                Ok(dst) => {
                    if op == "jmp"@ {
                        Ok(Instruction::JMP { dst })
                    } else if op == "jmpe"@ {
                        Ok(Instruction::JMPE { dst })
                    } else if op == "jmpne"@ {
                        Ok(Instruction::JMPNE { dst })
                    } else {
                        Err(ParserErrorV::OpUnknown(op))
                    }
                },
            },
        }
    }
}

impl Jmp<Instruction> {
    /// Resolve a jump from its mnemonic, argument tokens and the symbol
    /// table.
    pub fn try_from(value: (&str, Vec<Node<Token>>, &SymbolTable)) -> (r: Result<
        Self,
        ParserError,
    >)
        ensures
            (match r {
                Ok(c) => spec_jmp(value.0@, nodes_view(value.1@), value.2@) == Ok::<
                    Instruction,
                    ParserErrorV,
                >(c.0),
                Err(e) => spec_jmp(value.0@, nodes_view(value.1@), value.2@) == Err::<
                    Instruction,
                    ParserErrorV,
                >(e@),
            }),
    {
        let (op, args, st) = value;
        if args.len() != 1 {
            return Err(ParserError::ArgumentCountMismatch { got: args.len(), expected: 1 });
        }
        let ident = match Ident::try_from(&args[0]) {
            Ok(x) => x,
            Err(e) => return Err(e),
        };
        let dst = match label_lookup(st, ident) {
            Ok(v) => v,
            Err(e) => return Err(e),
        };
        if str_eq(op, "jmp") {
            Ok(Jmp(Instruction::JMP { dst }))
        } else if str_eq(op, "jmpe") {
            Ok(Jmp(Instruction::JMPE { dst }))
        } else if str_eq(op, "jmpne") {
            Ok(Jmp(Instruction::JMPNE { dst }))
        } else {
            Err(ParserError::OpUnknown(op.to_owned()))
        }
    }
}

/// What `load` compiles to: a destination register and either an
/// immediate integer or an identifier naming an integer constant. A wrong
/// token in either position reports the second token, as the last
/// conversion attempted.
pub open spec fn spec_load(
    args: Seq<NodeV<TokenV>>,
    st: Map<Seq<char>, SymbolTypeV>,
) -> Result<Instruction, ParserErrorV> {
    if args.len() != 2 {
        Err(ParserErrorV::ArgumentCountMismatch { expected: 2, got: args.len() as int })
    } else {
        match (args[0].expr, args[1].expr) {
            (TokenV::Register(rd), TokenV::Ident(name)) => match spec_integer_lookup(st, name) {
                Err(e) => Err(e),
                Ok(value) => Ok(Instruction::LOAD { rd, value }),
            },
            (TokenV::Register(rd), TokenV::Int(value)) => Ok(Instruction::LOAD { rd, value }),
            _ => Err(ParserErrorV::ArgumentInvalid { token: args[1].expr }),
        }
    }
}

impl Load<Instruction> {
    /// Resolve a `load` from its argument tokens and the symbol table.
    pub fn try_from(value: (Vec<Node<Token>>, &SymbolTable)) -> (r: Result<Self, ParserError>)
        ensures
            (match r {
                Ok(c) => spec_load(nodes_view(value.0@), value.1@) == Ok::<
                    Instruction,
                    ParserErrorV,
                >(c.0),
                Err(e) => spec_load(nodes_view(value.0@), value.1@) == Err::<
                    Instruction,
                    ParserErrorV,
                >(e@),
            }),
    {
        let (args, st) = value;
        if args.len() != 2 {
            return Err(ParserError::ArgumentCountMismatch { expected: 2, got: args.len() });
        }
        match (&args[0].expr, &args[1].expr) {
            (Token::Register(rd), Token::Ident(name)) => {
                match integer_lookup(st, Ident(name.clone())) {
                    Err(e) => Err(e),
                    Ok(value) => Ok(Load(Instruction::LOAD { rd: *rd, value })),
                }
            },
            (Token::Register(rd), Token::Int(value)) => {
                Ok(Load(Instruction::LOAD { rd: *rd, value: *value }))
            },
            _ => Err(ParserError::ArgumentInvalid { token: args[1].expr.clone() }),
        }
    }
}

/// What `loop` compiles to: one identifier argument naming a label.
pub open spec fn spec_loop(
    args: Seq<NodeV<TokenV>>,
    st: Map<Seq<char>, SymbolTypeV>,
) -> Result<Instruction, ParserErrorV> {
    if args.len() != 1 {
        Err(ParserErrorV::ArgumentCountMismatch { expected: 1, got: args.len() as int })
    } else {
        match spec_ident(args[0]) {
            Err(e) => Err(e),
            Ok(name) => match spec_label_lookup(st, name) {
                Err(e) => Err(e),
                Ok(dst) => Ok(Instruction::LOOP { dst }),
            },
        }
    }
}

impl Loop<Instruction> {
    /// Resolve a `loop` from its argument tokens and the symbol table.
    pub fn try_from(value: (Vec<Node<Token>>, &SymbolTable)) -> (r: Result<Self, ParserError>)
        ensures
            (match r {
                Ok(c) => spec_loop(nodes_view(value.0@), value.1@) == Ok::<
                    Instruction,
                    ParserErrorV,
                >(c.0),
                Err(e) => spec_loop(nodes_view(value.0@), value.1@) == Err::<
                    Instruction,
                    ParserErrorV,
                >(e@),
            }),
    {
        let (args, st) = value;
        if args.len() != 1 {
            return Err(ParserError::ArgumentCountMismatch { expected: 1, got: args.len() });
        }
        let ident = match Ident::try_from(&args[0]) {
            Ok(x) => x,
            Err(e) => return Err(e),
        };
        match label_lookup(st, ident) {
            Ok(dst) => Ok(Loop(Instruction::LOOP { dst })),
            Err(e) => Err(e),
        }
    }
}

/// The loop count an immediate seeds: nonnegative counts are taken as
/// they are, a negative count wraps to its 32-bit two's-complement value.
pub open spec fn cloop_count(v: i32) -> usize {
    if v >= 0 {
        v as usize
    } else {
        (v + 0x1_0000_0000) as usize
    }
}

/// What `cloop` compiles to: one immediate integer argument.
pub open spec fn spec_cloop(args: Seq<NodeV<TokenV>>) -> Result<Instruction, ParserErrorV> {
    if args.len() != 1 {
        Err(ParserErrorV::ArgumentCountMismatch { expected: 1, got: args.len() as int })
    } else {
        match spec_int(args[0]) {
            Err(e) => Err(e),
            Ok(v) => Ok(Instruction::CLOOP { count: cloop_count(v) }),
        }
    }
}

impl CLoop<Instruction> {
    /// Resolve a `cloop` from its argument tokens.
    pub fn try_from(value: (Vec<Node<Token>>, &SymbolTable)) -> (r: Result<Self, ParserError>)
        ensures
            (match r {
                Ok(c) => spec_cloop(nodes_view(value.0@)) == Ok::<Instruction, ParserErrorV>(c.0),
                Err(e) => spec_cloop(nodes_view(value.0@)) == Err::<Instruction, ParserErrorV>(
                    e@,
                ),
            }),
    {
        let (args, _st) = value;
        if args.len() != 1 {
            return Err(ParserError::ArgumentCountMismatch { got: args.len(), expected: 1 });
        }
        let imm = match Int::try_from(&args[0]) {
            Ok(x) => x,
            Err(e) => return Err(e),
        };
        let count: usize = if imm.0 >= 0 {
            imm.0 as usize
        } else {
            ((imm.0 as i64) + 0x1_0000_0000) as usize
        };
        Ok(CLoop(Instruction::CLOOP { count }))
    }
}

/// What an arithmetic instruction compiles to: three register arguments
/// in destination, left, right order, and one of the four arithmetic
/// mnemonics.
pub open spec fn spec_math(op: Seq<char>, args: Seq<NodeV<TokenV>>) -> Result<
    Instruction,
    ParserErrorV,
> {
    if args.len() != 3 {
        Err(ParserErrorV::ArgumentCountMismatch { expected: 3, got: args.len() as int })
    } else {
        match spec_register(args[0]) {
            Err(e) => Err(e),
            Ok(rd) => match spec_register(args[1]) {
                Err(e) => Err(e),
                Ok(rl) => match spec_register(args[2]) {
                    Err(e) => Err(e),
                    Ok(rh) => {
                        if op == "add"@ {
                            Ok(Instruction::ADD { rd, rl, rh })
                        } else if op == "sub"@ {
                            Ok(Instruction::SUB { rd, rl, rh })
                        } else if op == "mul"@ {
                            Ok(Instruction::MUL { rd, rl, rh })
                        } else if op == "div"@ {
                            Ok(Instruction::DIV { rd, rl, rh })
                        } else {
                            Err(ParserErrorV::OpUnknown(op))
                        }
                    },
                },
            },
        }
    }
}

impl Math<Instruction> {
    /// Resolve an arithmetic instruction from its mnemonic and argument
    /// tokens.
    pub fn try_from(value: (&str, Vec<Node<Token>>)) -> (r: Result<Self, ParserError>)
        ensures
            (match r {
                Ok(c) => spec_math(value.0@, nodes_view(value.1@)) == Ok::<
                    Instruction,
                    ParserErrorV,
                >(c.0),
                Err(e) => spec_math(value.0@, nodes_view(value.1@)) == Err::<
                    Instruction,
                    ParserErrorV,
                >(e@),
            }),
    {
        let (op, args) = value;
        if args.len() != 3 {
            return Err(ParserError::ArgumentCountMismatch { got: args.len(), expected: 3 });
        }
        let r0 = match Register::try_from(&args[0]) {
            Ok(x) => x,
            Err(e) => return Err(e),
        };
        let r1 = match Register::try_from(&args[1]) {
            Ok(x) => x,
            Err(e) => return Err(e),
        };
        let r2 = match Register::try_from(&args[2]) {
            Ok(x) => x,
            Err(e) => return Err(e),
        };
        if str_eq(op, "add") {
            Ok(Math(Instruction::ADD { rd: r0.0, rl: r1.0, rh: r2.0 }))
        } else if str_eq(op, "sub") {
            Ok(Math(Instruction::SUB { rd: r0.0, rl: r1.0, rh: r2.0 }))
        } else if str_eq(op, "mul") {
            Ok(Math(Instruction::MUL { rd: r0.0, rl: r1.0, rh: r2.0 }))
        } else if str_eq(op, "div") {
            Ok(Math(Instruction::DIV { rd: r0.0, rl: r1.0, rh: r2.0 }))
        } else {
            Err(ParserError::OpUnknown(op.to_owned()))
        }
    }
}

} // verus!
