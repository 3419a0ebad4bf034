//! The two-pass compiler: from parsed source to a flat, resolved
//! instruction sequence.
//!
//! Pass one folds every data declaration into the symbol table. Pass two
//! registers every code label at its expression's position in the final
//! instruction sequence — before any instruction body is compiled, which
//! is what lets a jump target a label defined later in the source — and
//! then synthesizes exactly one instruction per expression, collecting one
//! result per instruction and surfacing the first failure when the
//! instructions are materialized.

use vstd::prelude::*;

use crate::instruction::Instruction;
use crate::lexer::decls_view;
use crate::lexer::exprs_view;
use crate::lexer::nodes_view;
use crate::lexer::spec_parse;
use crate::lexer::Declare;
use crate::lexer::DeclareV;
use crate::lexer::Expression;
use crate::lexer::ExpressionV;
use crate::lexer::Node;
use crate::lexer::NodeV;
use crate::lexer::Token;
use crate::lexer::TokenV;
use crate::symbol::SymbolTable;
use crate::text::str_eq;
use crate::symbol::SymbolType;
use crate::symbol::SymbolTypeV;

verus! {

/// A compile-time error. Every failure the compiler can meet is a value
/// of this type; malformed input never aborts the process.
#[derive(Debug)]
pub enum ParserError {
    /// The mnemonic names no instruction.
    OpUnknown(String),
    /// An argument token has the wrong kind for its position.
    ArgumentInvalid { token: Token },
    /// An instruction was given the wrong number of arguments.
    ArgumentCountMismatch { expected: usize, got: usize },
    /// An identifier is bound to no symbol at all.
    SymbolUndefined(String),
    /// An identifier is bound to a symbol of the wrong kind.
    SymbolKindMismatch(String),
    /// The input does not match the program grammar; the offset is the
    /// character position at which matching stopped (equal to the byte
    /// position whenever the text before it is ASCII, as all matched text
    /// is).
    Syntax { offset: usize },
}

/// The mathematical value of a [`ParserError`].
pub enum ParserErrorV {
    OpUnknown(Seq<char>),
    ArgumentInvalid { token: TokenV },
    ArgumentCountMismatch { expected: int, got: int },
    SymbolUndefined(Seq<char>),
    SymbolKindMismatch(Seq<char>),
    Syntax { offset: int },
}

impl View for ParserError {
    type V = ParserErrorV;

    open spec fn view(&self) -> ParserErrorV {
        match self {
            ParserError::OpUnknown(op) => ParserErrorV::OpUnknown(op@),
            ParserError::ArgumentInvalid { token } => ParserErrorV::ArgumentInvalid {
                token: token@,
            },
            ParserError::ArgumentCountMismatch { expected, got } => {
                ParserErrorV::ArgumentCountMismatch {
                    expected: *expected as int,
                    got: *got as int,
                }
            },
            ParserError::SymbolUndefined(name) => ParserErrorV::SymbolUndefined(name@),
            ParserError::SymbolKindMismatch(name) => ParserErrorV::SymbolKindMismatch(name@),
            ParserError::Syntax { offset } => ParserErrorV::Syntax { offset: *offset as int },
        }
    }
}

impl Clone for ParserError {
    /// A clone denotes the same error.
    fn clone(&self) -> (r: Self)
        ensures
            r@ == self@,
    {
        match self {
            ParserError::OpUnknown(op) => ParserError::OpUnknown(op.clone()),
            ParserError::ArgumentInvalid { token } => ParserError::ArgumentInvalid {
                token: token.clone(),
            },
            ParserError::ArgumentCountMismatch { expected, got } => {
                ParserError::ArgumentCountMismatch { expected: *expected, got: *got }
            },
            ParserError::SymbolUndefined(name) => ParserError::SymbolUndefined(name.clone()),
            ParserError::SymbolKindMismatch(name) => ParserError::SymbolKindMismatch(name.clone()),
            ParserError::Syntax { offset } => ParserError::Syntax { offset: *offset },
        }
    }
}

/// The values of a sequence of per-instruction results.
pub open spec fn results_view(v: Seq<Result<Instruction, ParserError>>) -> Seq<
    Result<Instruction, ParserErrorV>,
> {
    Seq::new(
        v.len(),
        |k: int|
            match v[k] {
                Ok(i) => Ok(i),
                Err(e) => Err(e@),
            },
    )
}

/// The symbol a data declaration defines: its name bound to the literal
/// constant, or the error the malformed declaration earns.
pub open spec fn spec_data_decl(d: DeclareV) -> Result<(Seq<char>, SymbolTypeV), ParserErrorV> {
    match d {
        DeclareV::ConstI64(n1, n2) => match (n1.expr, n2.expr) {
            (TokenV::Ident(name), TokenV::Int(v)) => Ok((name, SymbolTypeV::Integer(v))),
            (TokenV::Ident(name), other) => Err(ParserErrorV::ArgumentInvalid { token: other }),
            (other, _) => Err(ParserErrorV::ArgumentInvalid { token: other }),
        },
        DeclareV::ConstString(n1, n2) => match (n1.expr, n2.expr) {
            (TokenV::Ident(name), TokenV::String(s)) => Ok((name, SymbolTypeV::String(s))),
            (TokenV::Ident(name), other) => Err(ParserErrorV::ArgumentInvalid { token: other }),
            (other, _) => Err(ParserErrorV::ArgumentInvalid { token: other }),
        },
    }
}

/// Pass one: fold every declaration into the table, in order, stopping at
/// the first malformed one.
pub open spec fn spec_data_pass(
    decls: Seq<NodeV<DeclareV>>,
    st: Map<Seq<char>, SymbolTypeV>,
) -> Result<Map<Seq<char>, SymbolTypeV>, ParserErrorV>
    decreases decls.len(),
{
    if decls.len() == 0 {
        Ok(st)
    } else {
        match spec_data_decl(decls.first().expr) {
            Err(e) => Err(e),
            Ok(p) => spec_data_pass(decls.drop_first(), st.insert(p.0, p.1)),
        }
    }
}

/// Pass two, first half: register every label at its expression's index,
/// counting from `idx`. Later bindings of the same name overwrite earlier
/// ones.
pub open spec fn spec_label_pass(
    exprs: Seq<NodeV<ExpressionV>>,
    st: Map<Seq<char>, SymbolTypeV>,
    idx: int,
) -> Map<Seq<char>, SymbolTypeV>
    decreases exprs.len(),
{
    if exprs.len() == 0 {
        st
    } else {
        let st2 = match exprs.first().expr {
            ExpressionV::Label(name, _) => st.insert(name, SymbolTypeV::Label(idx as usize)),
            _ => st,
        };
        spec_label_pass(exprs.drop_first(), st2, idx + 1)
    }
}

/// Unwrap one label layer: the instruction an expression contributes.
pub open spec fn spec_strip(e: ExpressionV) -> ExpressionV {
    match e {
        ExpressionV::Label(_, inner) => *inner,
        other => other,
    }
}

/// Dispatch one textual instruction on its mnemonic.
pub open spec fn spec_op_expression(
    op: Seq<char>,
    args: Seq<NodeV<TokenV>>,
    st: Map<Seq<char>, SymbolTypeV>,
) -> Result<Instruction, ParserErrorV> {
    if op == "ret"@ {
        Ok(Instruction::RET)
    } else if op == "hlt"@ {
        Ok(Instruction::HLT)
    } else if op == "load"@ {
        crate::expr::spec_load(args, st)
    } else if op == "cloop"@ {
        crate::expr::spec_cloop(args)
    } else if op == "loop"@ {
        crate::expr::spec_loop(args, st)
    } else if op == "inc"@ {
        crate::expr::spec_inc(args)
    } else if op == "jmp"@ || op == "jmpe"@ || op == "jmpne"@ {
        crate::expr::spec_jmp(op, args, st)
    } else if op == "call"@ {
        crate::expr::spec_call(args, st)
    } else if op == "add"@ || op == "sub"@ || op == "mul"@ || op == "div"@ {
        crate::expr::spec_math(op, args)
    } else if op == "eq"@ || op == "neq"@ || op == "gte"@ || op == "lte"@ || op == "lt"@ || op
        == "gt"@ {
        crate::expr::spec_cmp(op, args)
    } else {
        Err(ParserErrorV::OpUnknown(op))
    }
}

/// Pass two, second half: one result per instruction-bearing expression,
/// compiled against the finished table.
pub open spec fn spec_code_pass(
    exprs: Seq<NodeV<ExpressionV>>,
    st: Map<Seq<char>, SymbolTypeV>,
) -> Seq<Result<Instruction, ParserErrorV>>
    decreases exprs.len(),
{
    if exprs.len() == 0 {
        Seq::empty()
    } else {
        let rest = spec_code_pass(exprs.drop_first(), st);
        match spec_strip(exprs.first().expr) {
            ExpressionV::Call(op, args) => seq![spec_op_expression(op, args, st)] + rest,
            _ => rest,
        }
    }
}

/// Materializing the collected results surfaces the first failure.
pub open spec fn spec_materialize(rs: Seq<Result<Instruction, ParserErrorV>>) -> Result<
    Seq<Instruction>,
    ParserErrorV,
>
    decreases rs.len(),
{
    if rs.len() == 0 {
        Ok(Seq::empty())
    } else {
        match rs.first() {
            Err(e) => Err(e),
            Ok(i) => match spec_materialize(rs.drop_first()) {
                Err(e) => Err(e),
                Ok(is) => Ok(seq![i] + is),
            },
        }
    }
}

/// The whole compilation, from source text to resolved instructions: a
/// grammar failure becomes a syntax error, then the data pass, the label
/// pass and the code pass run in order over the parsed program.
pub open spec fn spec_process(s: Seq<char>) -> Result<Seq<Instruction>, ParserErrorV> {
    match spec_parse(s) {
        Err(off) => Err(ParserErrorV::Syntax { offset: off }),
        Ok((data_opt, exprs)) => {
            let decls = match data_opt {
                Some(d) => d,
                None => Seq::empty(),
            };
            match spec_data_pass(decls, Map::empty()) {
                Err(e) => Err(e),
                Ok(st1) => {
                    let st2 = spec_label_pass(exprs, st1, 0);
                    spec_materialize(spec_code_pass(exprs, st2))
                },
            }
        },
    }
}

/// The name a label expression defines, if it is one.
pub open spec fn label_name(e: ExpressionV) -> Option<Seq<char>> {
    match e {
        ExpressionV::Label(name, _) => Some(name),
        _ => None,
    }
}

/// The label pass leaves a name alone that no expression defines.
proof fn lemma_label_pass_frame(
    exprs: Seq<NodeV<ExpressionV>>,
    st: Map<Seq<char>, SymbolTypeV>,
    idx: int,
    name: Seq<char>,
)
    requires
        forall|j: int| 0 <= j < exprs.len() ==> label_name(#[trigger] exprs[j].expr) != Some(name),
    ensures
        spec_label_pass(exprs, st, idx).contains_key(name) == st.contains_key(name),
        st.contains_key(name) ==> spec_label_pass(exprs, st, idx)[name] == st[name],
    decreases exprs.len(),
{
    if exprs.len() > 0 {
        assert(label_name(exprs[0].expr) != Some(name));
        let st2 = match exprs.first().expr {
            ExpressionV::Label(n, _) => st.insert(n, SymbolTypeV::Label(idx as usize)),
            _ => st,
        };
        assert(forall|j: int|
            0 <= j < exprs.drop_first().len() ==> label_name(#[trigger] exprs.drop_first()[j].expr)
                != Some(name)) by {
            assert(forall|j: int|
                0 <= j < exprs.drop_first().len() ==> exprs.drop_first()[j] == exprs[j + 1]);
        };
        lemma_label_pass_frame(exprs.drop_first(), st2, idx + 1, name);
    }
}

/// Forward reference: whatever its position in the source — in particular
/// after a jump that targets it — the last expression that defines a
/// label binds it to the index of that expression in the final
/// instruction sequence, counted from `idx`.
pub proof fn lemma_label_pass_resolves(
    exprs: Seq<NodeV<ExpressionV>>,
    st: Map<Seq<char>, SymbolTypeV>,
    idx: int,
    i: int,
    name: Seq<char>,
)
    requires
        0 <= idx,
        idx + exprs.len() <= usize::MAX,
        0 <= i < exprs.len(),
        label_name(exprs[i].expr) == Some(name),
        forall|j: int| i < j < exprs.len() ==> label_name(#[trigger] exprs[j].expr) != Some(name),
    ensures
        spec_label_pass(exprs, st, idx).contains_key(name),
        spec_label_pass(exprs, st, idx)[name] == SymbolTypeV::Label((idx + i) as usize),
    decreases exprs.len(),
{
    let st2 = match exprs.first().expr {
        ExpressionV::Label(n, _) => st.insert(n, SymbolTypeV::Label(idx as usize)),
        _ => st,
    };
    assert(forall|j: int|
        0 <= j < exprs.drop_first().len() ==> exprs.drop_first()[j] == exprs[j + 1]);
    if i == 0 {
        lemma_label_pass_frame(exprs.drop_first(), st2, idx + 1, name);
    } else {
        lemma_label_pass_resolves(exprs.drop_first(), st2, idx + 1, i - 1, name);
    }
}

/// Forward reference at the top of the code section: a label defined by
/// the `i`-th expression (and not redefined later) resolves to `i`, the
/// position of the instruction it wraps in the final, flattened
/// instruction sequence, independent of where in the source the jumps to
/// it stand.
pub proof fn lemma_forward_reference(
    exprs: Seq<NodeV<ExpressionV>>,
    st: Map<Seq<char>, SymbolTypeV>,
    i: int,
    name: Seq<char>,
)
    requires
        exprs.len() <= usize::MAX,
        0 <= i < exprs.len(),
        label_name(exprs[i].expr) == Some(name),
        forall|j: int| i < j < exprs.len() ==> label_name(#[trigger] exprs[j].expr) != Some(name),
    ensures
        spec_label_pass(exprs, st, 0).contains_key(name),
        spec_label_pass(exprs, st, 0)[name] == SymbolTypeV::Label(i as usize),
{
    lemma_label_pass_resolves(exprs, st, 0, i, name);
}

/// Compilation is pure and deterministic: any two results of compiling
/// the same text are identical, so re-running the compiler on the same
/// source yields identical instructions.
pub proof fn lemma_process_deterministic(
    code: Seq<char>,
    r1: Result<Seq<Instruction>, ParserErrorV>,
    r2: Result<Seq<Instruction>, ParserErrorV>,
)
    requires
        r1 == spec_process(code),
        r2 == spec_process(code),
    ensures
        r1 == r2,
{
}

/// The compiler: a symbol table built during the passes, and one result
/// per instruction, materialized at the end. Its lifetime is scoped to
/// one compilation.
pub struct Parser {
    pub st: SymbolTable,
    pub instructions: Vec<Result<Instruction, ParserError>>,
}

impl Parser {
    /// A fresh compiler: empty table, no instructions.
    pub fn new() -> (p: Self)
        ensures
            p.st@ == Map::<Seq<char>, SymbolTypeV>::empty(),
            p.instructions@.len() == 0,
    {
        Self { st: SymbolTable::new(), instructions: Vec::new() }
    }

    /// Fold one data declaration into the symbol table, or report the
    /// malformed token.
    pub fn process_data_decl(&mut self, decl: Declare) -> (r: Result<(), ParserError>)
        ensures
            final(self).instructions == old(self).instructions,
            (match spec_data_decl(decl@) {
                Ok(p) => r == Ok::<(), ParserError>(()) && final(self).st@ == old(self).st@.insert(
                    p.0,
                    p.1,
                ),
                Err(ev) => (match r {
                    Err(e) => e@ == ev,
                    Ok(_) => false,
                }) && final(self).st@ == old(self).st@,
            }),
    {
        match decl {
            Declare::ConstI64(n1, n2) => match (n1.expr, n2.expr) {
                (Token::Ident(ident), Token::Int(i)) => {
                    let _ = self.st.add(ident, SymbolType::Integer(i));
                    Ok(())
                },
                (Token::Ident(_), other) => Err(ParserError::ArgumentInvalid { token: other }),
                (other, _) => Err(ParserError::ArgumentInvalid { token: other }),
            },
            Declare::ConstString(n1, n2) => match (n1.expr, n2.expr) {
                (Token::Ident(ident), Token::String(s)) => {
                    let _ = self.st.add(ident, SymbolType::String(s));
                    Ok(())
                },
                (Token::Ident(_), other) => Err(ParserError::ArgumentInvalid { token: other }),
                (other, _) => Err(ParserError::ArgumentInvalid { token: other }),
            },
        }
    }

    /// Pass one over the whole data section, stopping at the first
    /// malformed declaration.
    #[verifier::loop_isolation(false)]
    pub fn process_data_segment(&mut self, data_segment: Vec<Node<Declare>>) -> (r: Result<
        (),
        ParserError,
    >)
        ensures
            final(self).instructions == old(self).instructions,
            (match spec_data_pass(decls_view(data_segment@), old(self).st@) {
                Ok(m) => r == Ok::<(), ParserError>(()) && final(self).st@ == m,
                Err(ev) => (match r {
                    Err(e) => e@ == ev,
                    Ok(_) => false,
                }),
            }),
    {
        let ghost orig = decls_view(data_segment@);
        let ghost st0 = self.st@;
        let mut rest = data_segment;
        while rest.len() > 0
            invariant
                self.instructions == old(self).instructions,
                spec_data_pass(orig, st0) == spec_data_pass(decls_view(rest@), self.st@),
            decreases rest.len(),
        {
            let ghost before = decls_view(rest@);
            let ghost st_head = self.st@;
            let d = rest.remove(0);
            proof {
                assert(decls_view(rest@) =~= before.drop_first());
                assert(d@ == before.first());
            }
            match self.process_data_decl(d.expr) {
                Ok(()) => {
                    proof {
                        assert(spec_data_pass(before, st_head) == spec_data_pass(
                            decls_view(rest@),
                            self.st@,
                        ));
                    }
                },
                Err(e) => {
                    proof {
                        assert(spec_data_pass(before, st_head) == Err::<
                            Map<Seq<char>, SymbolTypeV>,
                            ParserErrorV,
                        >(e@));
                        assert(spec_data_pass(orig, st0) == Err::<
                            Map<Seq<char>, SymbolTypeV>,
                            ParserErrorV,
                        >(e@));
                    }
                    return Err(e);
                },
            }
        }
        proof {
            assert(decls_view(rest@) =~= Seq::<NodeV<DeclareV>>::empty());
        }
        Ok(())
    }

    /// Dispatch one textual instruction on its mnemonic.
    pub fn process_op_expression(&mut self, op: String, args: Vec<Node<Token>>) -> (r: Result<
        Instruction,
        ParserError,
    >)
        ensures
            final(self).st == old(self).st,
            final(self).instructions == old(self).instructions,
            (match r {
                Ok(i) => spec_op_expression(op@, nodes_view(args@), old(self).st@) == Ok::<
                    Instruction,
                    ParserErrorV,
                >(i),
                Err(e) => spec_op_expression(op@, nodes_view(args@), old(self).st@) == Err::<
                    Instruction,
                    ParserErrorV,
                >(e@),
            }),
    {
        if str_eq(op.as_str(), "ret") {
            Ok(Instruction::RET)
        } else if str_eq(op.as_str(), "hlt") {
            Ok(Instruction::HLT)
        } else if str_eq(op.as_str(), "load") {
            match crate::expr::Load::try_from((args, &self.st)) {
                Ok(instruction) => Ok(instruction.0),
                Err(e) => Err(e),
            }
        } else if str_eq(op.as_str(), "cloop") {
            match crate::expr::CLoop::try_from((args, &self.st)) {
                Ok(instruction) => Ok(instruction.0),
                Err(e) => Err(e),
            }
        } else if str_eq(op.as_str(), "loop") {
            match crate::expr::Loop::try_from((args, &self.st)) {
                Ok(instruction) => Ok(instruction.0),
                Err(e) => Err(e),
            }
        } else if str_eq(op.as_str(), "inc") {
            match crate::expr::Inc::try_from((args, &self.st)) {
                Ok(instruction) => Ok(instruction.0),
                Err(e) => Err(e),
            }
        } else if str_eq(op.as_str(), "jmp") || str_eq(op.as_str(), "jmpe") || str_eq(
            op.as_str(),
            "jmpne",
        ) {
            match crate::expr::Jmp::try_from((op.as_str(), args, &self.st)) {
                Ok(instruction) => Ok(instruction.0),
                Err(e) => Err(e),
            }
        } else if str_eq(op.as_str(), "call") {
            match crate::expr::Call::try_from((args, &self.st)) {
                Ok(instruction) => Ok(instruction.0),
                Err(e) => Err(e),
            }
        } else if str_eq(op.as_str(), "add") || str_eq(op.as_str(), "sub") || str_eq(
            op.as_str(),
            "mul",
        ) || str_eq(op.as_str(), "div") {
            match crate::expr::Math::try_from((op.as_str(), args)) {
                Ok(instruction) => Ok(instruction.0),
                Err(e) => Err(e),
            }
        } else if str_eq(op.as_str(), "eq") || str_eq(op.as_str(), "neq") || str_eq(
            op.as_str(),
            "gte",
        ) || str_eq(op.as_str(), "lte") || str_eq(op.as_str(), "lt") || str_eq(op.as_str(), "gt") {
            match crate::expr::Cmp::try_from((op.as_str(), args)) {
                Ok(instruction) => Ok(instruction.0),
                Err(e) => Err(e),
            }
        } else {
            Err(ParserError::OpUnknown(op))
        }
    }

    /// Pass two over the whole code section: register every label at its
    /// expression's index before compiling any instruction body — this is
    /// what resolves forward references — then compile one result per
    /// expression against the finished table.
    pub fn process_code_segment(&mut self, code_segment: Vec<Node<Expression>>)
        ensures
            final(self).st@ == spec_label_pass(exprs_view(code_segment@), old(self).st@, 0),
            results_view(final(self).instructions@) == results_view(old(self).instructions@)
                + spec_code_pass(
                exprs_view(code_segment@),
                spec_label_pass(exprs_view(code_segment@), old(self).st@, 0),
            ),
    {
        let ghost origv = exprs_view(code_segment@);
        let ghost st0 = self.st@;
        proof {
            assert(origv.skip(0) =~= origv);
        }
        let mut k: usize = 0;
        while k < code_segment.len()
            invariant
                k <= code_segment.len(),
                origv == exprs_view(code_segment@),
                self.instructions == old(self).instructions,
                spec_label_pass(origv, st0, 0) == spec_label_pass(
                    origv.skip(k as int),
                    self.st@,
                    k as int,
                ),
            decreases code_segment.len() - k,
        {
            proof {
                assert(origv.skip(k as int).drop_first() =~= origv.skip(k as int + 1));
                assert(origv.skip(k as int).first() == origv[k as int]);
            }
            match &code_segment[k].expr {
                Expression::Label(name, _) => {
                    let _ = self.st.add(name.clone(), SymbolType::Label(k));
                },
                _ => {},
            }
            k = k + 1;
        }
        proof {
            assert(origv.skip(code_segment@.len() as int) =~= Seq::<NodeV<ExpressionV>>::empty());
        }
        let ghost st2 = self.st@;
        let ghost done = results_view(self.instructions@);
        let mut rest = code_segment;
        while rest.len() > 0
            invariant
                self.st@ == st2,
                st2 == spec_label_pass(origv, st0, 0),
                results_view(self.instructions@) + spec_code_pass(exprs_view(rest@), st2) == done
                    + spec_code_pass(origv, st2),
            decreases rest.len(),
        {
            let ghost before = exprs_view(rest@);
            let node = rest.remove(0);
            proof {
                assert(exprs_view(rest@) =~= before.drop_first());
                assert(node@ == before.first());
            }
            let ghost nodev = node@;
            let stripped = match node.expr {
                Expression::Label(_, inner) => *inner,
                other => other,
            };
            proof {
                assert(stripped@ == spec_strip(nodev.expr));
            }
            match stripped {
                Expression::Call(op, args) => {
                    let ghost prevres = results_view(self.instructions@);
                    let ghost specr = spec_op_expression(op@, nodes_view(args@), st2);
                    proof {
                        assert(spec_strip(nodev.expr) == ExpressionV::Call(op@, nodes_view(args@)));
                        assert(spec_code_pass(before, st2) == seq![specr] + spec_code_pass(
                            before.drop_first(),
                            st2,
                        ));
                    }
                    let instruction = self.process_op_expression(op, args);
                    self.instructions.push(instruction);
                    proof {
                        assert(results_view(self.instructions@) =~= prevres.push(specr));
                        assert(results_view(self.instructions@) + spec_code_pass(
                            exprs_view(rest@),
                            st2,
                        ) =~= prevres + (seq![specr] + spec_code_pass(exprs_view(rest@), st2)));
                    }
                },
                _ => {
                    proof {
                        assert(spec_code_pass(before, st2) == spec_code_pass(
                            before.drop_first(),
                            st2,
                        ));
                    }
                },
            }
        }
        proof {
            assert(exprs_view(rest@) =~= Seq::<NodeV<ExpressionV>>::empty());
            assert(results_view(self.instructions@) =~= done + spec_code_pass(origv, st2));
        }
    }

    /// Compile a whole program: parse it, run the passes, and materialize
    /// the instructions, surfacing the first failure of any stage.
    ///
    /// The compiler must be fresh: its lifetime is scoped to this one
    /// compilation.
    #[verifier::loop_isolation(false)]
    pub fn process(self, code: &str) -> (r: Result<Vec<Instruction>, ParserError>)
        requires
            self.st@ == Map::<Seq<char>, SymbolTypeV>::empty(),
            self.instructions@.len() == 0,
        ensures
            (match r {
                Ok(v) => spec_process(code@) == Ok::<Seq<Instruction>, ParserErrorV>(v@),
                Err(e) => spec_process(code@) == Err::<Seq<Instruction>, ParserErrorV>(e@),
            }),
    {
        let mut this = self;
        match crate::lexer::parse(code) {
            Err(off) => Err(ParserError::Syntax { offset: off }),
            Ok((data_opt, code_seg)) => {
                let data_segment = match data_opt {
                    Some(d) => d,
                    None => Vec::new(),
                };
                proof {
                    if data_opt is None {
                        assert(decls_view(data_segment@) =~= Seq::<NodeV<DeclareV>>::empty());
                    }
                }
                match this.process_data_segment(data_segment) {
                    Err(e) => Err(e),
                    Ok(()) => {
                        let ghost pre_instr = results_view(this.instructions@);
                        this.process_code_segment(code_seg);
                        let ghost rs = results_view(this.instructions@);
                        proof {
                            assert(pre_instr =~= Seq::<Result<Instruction, ParserErrorV>>::empty());
                            assert(pre_instr + spec_code_pass(exprs_view(code_seg@), this.st@)
                                =~= spec_code_pass(exprs_view(code_seg@), this.st@));
                        }
                        let mut out: Vec<Instruction> = Vec::new();
                        let mut k: usize = 0;
                        proof {
                            assert(rs.skip(0) =~= rs);
                        }
                        while k < this.instructions.len()
                            invariant
                                k <= this.instructions.len(),
                                rs == results_view(this.instructions@),
                                spec_materialize(rs) == (match spec_materialize(
                                    rs.skip(k as int),
                                ) {
                                    Ok(is) => Ok::<Seq<Instruction>, ParserErrorV>(out@ + is),
                                    Err(e) => Err::<Seq<Instruction>, ParserErrorV>(e),
                                }),
                            decreases this.instructions.len() - k,
                        {
                            proof {
                                assert(rs.skip(k as int).drop_first() =~= rs.skip(k as int + 1));
                                assert(rs.skip(k as int).first() == rs[k as int]);
                            }
                            match &this.instructions[k] {
                                Ok(i) => {
                                    let ghost prev = out@;
                                    let ghost iv = *i;
                                    out.push(*i);
                                    proof {
                                        assert(rs[k as int] == Ok::<Instruction, ParserErrorV>(
                                            iv,
                                        ));
                                        assert forall|is: Seq<Instruction>| #[trigger]
                                            (out@ + is) == prev + (seq![iv] + is) by {
                                            assert(out@ + is =~= prev + (seq![iv] + is));
                                        };
                                    }
                                },
                                Err(e) => {
                                    proof {
                                        assert(spec_materialize(rs) == Err::<
                                            Seq<Instruction>,
                                            ParserErrorV,
                                        >(e@));
                                        assert(spec_process(code@) == spec_materialize(rs));
                                    }
                                    return Err(e.clone());
                                },
                            }
                            k = k + 1;
                        }
                        proof {
                            assert(rs.skip(this.instructions@.len() as int) =~= Seq::<
                                Result<Instruction, ParserErrorV>,
                            >::empty());
                            assert(out@ + Seq::<Instruction>::empty() =~= out@);
                        }
                        Ok(out)
                    },
                }
            },
        }
    }
}

} // verus!
