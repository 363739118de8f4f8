//! Lowering: from the syntax tree to flat sequences of register-machine
//! instructions. The generator tracks the next free virtual register, the
//! next free memory word, and two symbol tables: value variables to registers
//! and array variables to base memory addresses.
//!
//! Expression lowering is a function of the expression and the generator
//! state, mirrored exactly by [`spec_lower_expr`]. Statement lowering draws
//! fresh random label names, so its effect on the generator state and its
//! designated output register are mirrored exactly, while the emitted
//! instructions are pinned up to the choice of label names.

use vstd::prelude::*;
use crate::air::{Flag, Inst, Instruction, Mode, Reg};
use crate::block::{inst_hint, latest_flag_hint_of, Block};
use crate::error::{LangError, LangErrorV};
use crate::span::Span;
use crate::ast::{
    expr_span,
    expr_view,
    exprs_view,
    stmt_view,
    stmts_view,
    Application,
    ApplicationV,
    Expression,
    ExpressionV,
    Identifier,
    If,
    Let,
    Literal,
    Mutate,
    OperatorType,
    Statement,
    StatementV,
    While,
};

verus! {

broadcast use vstd::std_specs::vec::group_vec_axioms, vstd::seq::axiom_seq_index_decreases;

/// Word size in bytes. This does not modify behavior program wide.
pub const WORD_SIZE: usize = 4;

/// A byte address as the 32-bit word a constant introduction can carry.
pub open spec fn spec_mem_word(x: usize) -> u32 {
    (((x as u64) % 0x1_0000_0000u64) as u32)
}

fn mem_word(x: usize) -> (r: u32)
    ensures
        r == spec_mem_word(x),
{
    ((x as u64) % 0x1_0000_0000u64) as u32
}

/// The map built over the entries inserted so far, later entries shadowing
/// earlier ones.
pub open spec fn entries_map<V>(s: Seq<(String, V)>) -> Map<Seq<char>, V>
    decreases s.len(),
{
    if s.len() == 0 {
        Map::empty()
    } else {
        entries_map(s.drop_last()).insert(s.last().0@, s.last().1)
    }
}

/// A symbol table from names to plain values.
pub struct NameMap<V> {
    entries: Vec<(String, V)>,
}

impl<V: Copy> NameMap<V> {
    pub closed spec fn view(&self) -> Map<Seq<char>, V> {
        entries_map(self.entries@)
    }

    pub fn new() -> (r: NameMap<V>)
        ensures
            r@ == Map::<Seq<char>, V>::empty(),
    {
        NameMap { entries: Vec::new() }
    }

    pub fn insert(&mut self, key: String, value: V)
        ensures
            final(self)@ == old(self)@.insert(key@, value),
    {
        let ghost before = self.entries@;
        self.entries.push((key, value));
        proof {
            assert(self.entries@.drop_last() =~= before);
        }
    }

    pub fn get(&self, key: &String) -> (r: Option<V>)
        ensures
            r == (if self@.contains_key(key@) {
                Some(self@[key@])
            } else {
                None
            }),
    {
        let n = self.entries.len();
        let mut i = n;
        proof {
            assert(self.entries@.subrange(0, n as int) =~= self.entries@);
        }
        while i > 0
            invariant
                i <= self.entries@.len(),
                ({
                    let whole = entries_map(self.entries@);
                    let part = entries_map(self.entries@.subrange(0, i as int));
                    &&& (whole.contains_key(key@) == part.contains_key(key@))
                    &&& (whole.contains_key(key@) ==> whole[key@] == part[key@])
                }),
            decreases i,
        {
            i = i - 1;
            proof {
                assert(self.entries@.subrange(0, i + 1).drop_last() =~= self.entries@.subrange(
                    0,
                    i as int,
                ));
                assert(self.entries@.subrange(0, i + 1).last() == self.entries@[i as int]);
            }
            let pair = &self.entries[i];
            if pair.0.eq(key) {
                return Some(pair.1);
            }
            proof {
                assert(self.entries@[i as int].0@ != key@);
            }
        }
        proof {
            assert(self.entries@.subrange(0, 0) =~= Seq::<(String, V)>::empty());
        }
        None
    }

    pub fn contains(&self, key: &String) -> (r: bool)
        ensures
            r == self@.contains_key(key@),
    {
        match self.get(key) {
            Some(_) => true,
            None => false,
        }
    }
}

/// The mathematical state of the generator.
pub ghost struct GenStateV {
    pub next_reg: u32,
    pub variables: Map<Seq<char>, Reg>,
    pub pointers: Map<Seq<char>, usize>,
    pub next_mem_addr: usize,
}

/// Allocate one fresh register: the current counter, which then rises (and
/// stays put once it has reached its ceiling, so allocation is total).
pub open spec fn spec_alloc(st: GenStateV) -> (Reg, GenStateV) {
    (
        Reg(st.next_reg),
        GenStateV {
            next_reg: if st.next_reg < u32::MAX {
                (st.next_reg + 1) as u32
            } else {
                st.next_reg
            },
            ..st
        },
    )
}

/// Allocate one memory word: the current byte address, which then advances by
/// the word size (and stays put once it has reached its ceiling).
pub open spec fn spec_alloc_mem(st: GenStateV) -> (usize, GenStateV) {
    (
        st.next_mem_addr,
        GenStateV {
            next_mem_addr: if st.next_mem_addr + WORD_SIZE <= usize::MAX {
                (st.next_mem_addr + WORD_SIZE) as usize
            } else {
                st.next_mem_addr
            },
            ..st
        },
    )
}

/// The generator's mutable lowering state.
pub struct GenerationState {
    next_reg: Reg,
    variables: NameMap<Reg>,
    /// The variable pointers in a program.
    pointers: NameMap<usize>,
    /// the address of the next place in memory to store arrays.
    next_mem_addr: usize,
}

impl View for GenerationState {
    type V = GenStateV;

    closed spec fn view(&self) -> GenStateV {
        GenStateV {
            next_reg: self.next_reg.0,
            variables: self.variables@,
            pointers: self.pointers@,
            next_mem_addr: self.next_mem_addr,
        }
    }
}

impl GenerationState {
    pub fn new() -> (r: GenerationState)
        ensures
            r@ == (GenStateV {
                next_reg: 0,
                variables: Map::empty(),
                pointers: Map::empty(),
                next_mem_addr: 0,
            }),
    {
        GenerationState {
            next_reg: Reg(0),
            variables: NameMap::new(),
            pointers: NameMap::new(),
            next_mem_addr: 0,
        }
    }

    fn next_register(&mut self) -> (r: Reg)
        ensures
            (r, final(self)@) == spec_alloc(old(self)@),
    {
        let reg = self.next_reg;
        if self.next_reg.0 < u32::MAX {
            self.next_reg = Reg(self.next_reg.0 + 1);
        }
        reg
    }

    fn next_mem_addr(&mut self) -> (r: usize)
        ensures
            (r, final(self)@) == spec_alloc_mem(old(self)@),
    {
        let addr = self.next_mem_addr;
        if self.next_mem_addr <= usize::MAX - WORD_SIZE {
            self.next_mem_addr = self.next_mem_addr + WORD_SIZE;
        }
        addr
    }

    /// initialise a variable in the program, binding its name to a register
    fn initialise_variable(&mut self, variable: String, register: Reg)
        ensures
            final(self)@ == (GenStateV {
                variables: old(self)@.variables.insert(variable@, register),
                ..old(self)@
            }),
    {
        self.variables.insert(variable, register);
    }

    /// initialise a pointer to a variable in the program
    fn initialise_pointer(&mut self, variable: String, pointer: usize)
        ensures
            final(self)@ == (GenStateV {
                pointers: old(self)@.pointers.insert(variable@, pointer),
                ..old(self)@
            }),
    {
        self.pointers.insert(variable, pointer);
    }

    /// checks if a variable is already initialised
    pub fn variable_exists(&self, variable: &String) -> (r: bool)
        ensures
            r == self@.variables.contains_key(variable@),
    {
        self.variables.contains(variable)
    }

    /// The register a variable was bound to, or the uninitialised-variable
    /// error naming it.
    fn variable_register(&self, variable: &String, span: Span) -> (r: Result<Reg, LangError>)
        ensures
            match r {
                Ok(reg) => self@.variables.contains_key(variable@) && reg
                    == self@.variables[variable@],
                Err(e) => !self@.variables.contains_key(variable@) && e@
                    == (LangErrorV::UninitialisedVariable { span, name: variable@ }),
            },
    {
        match self.variables.get(variable) {
            Some(reg) => Ok(reg),
            None => Err(LangError::UninitialisedVariable { span, name: variable.clone() }),
        }
    }

    /// The base address an array variable was bound to, or the uninitialised
    /// pointer error naming it.
    fn deref_pointer(&self, variable: &String, span: Span) -> (r: Result<usize, LangError>)
        ensures
            match r {
                Ok(addr) => self@.pointers.contains_key(variable@) && addr
                    == self@.pointers[variable@],
                Err(e) => !self@.pointers.contains_key(variable@) && e@
                    == (LangErrorV::UninitialisedPointer { span, name: variable@ }),
            },
    {
        match self.pointers.get(variable) {
            Some(addr) => Ok(addr),
            None => Err(LangError::UninitialisedPointer { span, name: variable.clone() }),
        }
    }
}


/// The 32-bit word a literal denotes: booleans as 0 or 1, characters by code
/// point, numbers in two's complement.
pub open spec fn spec_lit_word(lit: Literal) -> u32 {
    match lit {
        Literal::Boolean { val, span: _ } => if val {
            1u32
        } else {
            0u32
        },
        Literal::Char { val, span: _ } => val as u32,
        Literal::Number { val, span: _ } => val as u32,
    }
}

/// The token a stray operator is reported as.
pub open spec fn spec_op_token(op: OperatorType) -> crate::token::TokenTypeV {
    match op {
        OperatorType::Plus => crate::token::TokenTypeV::Plus,
        OperatorType::Minus => crate::token::TokenTypeV::Minus,
        OperatorType::Divide => crate::token::TokenTypeV::Slash,
        OperatorType::Multiply => crate::token::TokenTypeV::Star,
        OperatorType::LessThan => crate::token::TokenTypeV::LessThan,
        OperatorType::GreaterThan => crate::token::TokenTypeV::GreaterThan,
        OperatorType::LessThanEq => crate::token::TokenTypeV::LessThanEq,
        OperatorType::GreaterThanEq => crate::token::TokenTypeV::GreaterThanEq,
        OperatorType::Equal => crate::token::TokenTypeV::EqEq,
        OperatorType::Not => crate::token::TokenTypeV::Bang,
        OperatorType::NotEqual => crate::token::TokenTypeV::BangEq,
    }
}

/// The flag hint a comparison operator records.
pub open spec fn spec_cmp_flag(op: OperatorType) -> Flag {
    match op {
        OperatorType::LessThan => Flag::Lt,
        OperatorType::LessThanEq => Flag::Le,
        OperatorType::GreaterThan => Flag::Gt,
        OperatorType::GreaterThanEq => Flag::Ge,
        OperatorType::NotEqual => Flag::Ne,
        _ => Flag::Eq,
    }
}

/// Whether an operator is one of the six comparisons.
pub open spec fn spec_is_cmp(op: OperatorType) -> bool {
    ||| op is LessThan
    ||| op is LessThanEq
    ||| op is GreaterThan
    ||| op is GreaterThanEq
    ||| op is Equal
    ||| op is NotEqual
}

/// The later non-null of two designated output registers.
pub open spec fn or_reg(newer: Option<Reg>, older: Option<Reg>) -> Option<Reg> {
    match newer {
        Some(r) => Some(r),
        None => older,
    }
}

/// Lower an expression: the emitted instructions, the designated output
/// register, and the generator state after it, or the lowering error. Every
/// value-producing instruction writes a freshly allocated register;
/// identifiers emit nothing and designate their variable's register.
pub open spec fn spec_lower_expr(e: ExpressionV, st: GenStateV) -> Result<
    (Seq<Inst>, Option<Reg>, GenStateV),
    LangErrorV,
>
    decreases e, 0int,
{
    match e {
        ExpressionV::Literal { lit } => {
            let (reg, st1) = spec_alloc(st);
            Ok(
                (
                    seq![
                        Inst {
                            instruction: Instruction::CON(reg, spec_lit_word(lit)),
                            span: lit.spec_span(),
                        },
                    ],
                    Some(reg),
                    st1,
                ),
            )
        },
        ExpressionV::Group { expr, span: _ } => spec_lower_expr(*expr, st),
        ExpressionV::Identifier(id) => if st.variables.contains_key(id.id) {
            Ok((Seq::empty(), Some(st.variables[id.id]), st))
        } else {
            Err(LangErrorV::UninitialisedVariable { span: id.span, name: id.id })
        },
        ExpressionV::App { app } => spec_lower_app(app, st),
        ExpressionV::Array { elements, span } => {
            let (reg_index, st1) = spec_alloc(st);
            let (offset, st2) = spec_alloc(st1);
            let init = seq![
                Inst {
                    instruction: Instruction::CON(reg_index, spec_mem_word(st2.next_mem_addr)),
                    span,
                },
                Inst { instruction: Instruction::CON(offset, WORD_SIZE as u32), span },
            ];
            proof {
                assert(decreases_to!(e => elements));
            }
            spec_lower_array_elems(elements, st2, init, Some(offset), reg_index, offset)
        },
        ExpressionV::Index { variable, index, span } => {
            if !st.pointers.contains_key(variable.id) {
                Err(LangErrorV::UninitialisedPointer { span, name: variable.id })
            } else {
                let base = st.pointers[variable.id];
                let (r_base, st1) = spec_alloc(st);
                match spec_lower_expr(*index, st1) {
                    Err(er) => Err(er),
                    Ok((ii, oi, st2)) => match oi {
                        None => Err(
                            LangErrorV::NullValueExpression { span: expr_span(*index) },
                        ),
                        Some(r_idx_out) => {
                            let (r_word, st3) = spec_alloc(st2);
                            let (r_index, st4) = spec_alloc(st3);
                            let (r_data, st5) = spec_alloc(st4);
                            Ok(
                                (
                                    seq![
                                        Inst {
                                            instruction: Instruction::CON(
                                                r_base,
                                                spec_mem_word(base),
                                            ),
                                            span,
                                        },
                                    ] + ii + seq![
                                        Inst {
                                            instruction: Instruction::CON(
                                                r_word,
                                                WORD_SIZE as u32,
                                            ),
                                            span: expr_span(*index),
                                        },
                                        Inst {
                                            instruction: Instruction::MUL(
                                                r_index,
                                                r_idx_out,
                                                r_word,
                                            ),
                                            span: expr_span(*index),
                                        },
                                        Inst {
                                            instruction: Instruction::LDR(
                                                r_data,
                                                r_base,
                                                Mode::Offset(r_index),
                                            ),
                                            span,
                                        },
                                    ],
                                    Some(r_data),
                                    st5,
                                ),
                            )
                        },
                    },
                }
            }
        },
    }
}

/// Lower an operator application.
pub open spec fn spec_lower_app(a: ApplicationV, st: GenStateV) -> Result<
    (Seq<Inst>, Option<Reg>, GenStateV),
    LangErrorV,
>
    decreases a, 0int,
{
    match a {
        ApplicationV::Unary { op, expr, span } => match spec_lower_expr(*expr, st) {
            Err(er) => Err(er),
            Ok((ii, oi, st1)) => match oi {
                None => Err(LangErrorV::NullValueExpression { span: expr_span(*expr) }),
                Some(rx) => match op {
                    OperatorType::Not => {
                        let (rd, st2) = spec_alloc(st1);
                        Ok(
                            (
                                ii.push(Inst { instruction: Instruction::NOT(rd, rx), span }),
                                Some(rd),
                                st2,
                            ),
                        )
                    },
                    OperatorType::Minus => {
                        let (rz, st2) = spec_alloc(st1);
                        let (rd, st3) = spec_alloc(st2);
                        Ok(
                            (
                                ii.push(Inst { instruction: Instruction::CON(rz, 0), span }).push(
                                    Inst { instruction: Instruction::SUB(rd, rz, rx), span },
                                ),
                                Some(rd),
                                st3,
                            ),
                        )
                    },
                    _ => Err(LangErrorV::InvalidUnaryOperator { span, op: spec_op_token(op) }),
                },
            },
        },
        ApplicationV::Binary { op, left, right, span } => match spec_lower_expr(*left, st) {
            Err(er) => Err(er),
            Ok((il, ol, st1)) => match ol {
                None => Err(LangErrorV::NullValueExpression { span: expr_span(*left) }),
                Some(rx) => match spec_lower_expr(*right, st1) {
                    Err(er) => Err(er),
                    Ok((ir, orr, st2)) => match orr {
                        None => Err(
                            LangErrorV::NullValueExpression { span: expr_span(*right) },
                        ),
                        Some(ry) => if op is Not {
                            Err(
                                LangErrorV::InvalidBinaryOperator {
                                    span,
                                    op: spec_op_token(op),
                                },
                            )
                        } else if spec_is_cmp(op) {
                            Ok(
                                (
                                    (il + ir).push(
                                        Inst {
                                            instruction: Instruction::CMP(
                                                rx,
                                                ry,
                                                Some(spec_cmp_flag(op)),
                                            ),
                                            span,
                                        },
                                    ),
                                    Some(ry),
                                    st2,
                                ),
                            )
                        } else {
                            let (rd, st3) = spec_alloc(st2);
                            let inst = match op {
                                OperatorType::Plus => Instruction::ADD(rd, rx, ry),
                                OperatorType::Minus => Instruction::SUB(rd, rx, ry),
                                OperatorType::Multiply => Instruction::MUL(rd, rx, ry),
                                _ => Instruction::DIV(rd, rx, ry),
                            };
                            Ok(((il + ir).push(Inst { instruction: inst, span }), Some(rd), st3))
                        },
                    },
                },
            },
        },
    }
}

/// Lower the elements of an array literal: each element's instructions are
/// followed by a store of the accumulated block's designated register through
/// the post-incremented base register, and each element reserves one memory
/// word, so an array takes one word per element.
pub open spec fn spec_lower_array_elems(
    elems: Seq<ExpressionV>,
    st: GenStateV,
    acc: Seq<Inst>,
    acc_out: Option<Reg>,
    reg_index: Reg,
    offset: Reg,
) -> Result<(Seq<Inst>, Option<Reg>, GenStateV), LangErrorV>
    decreases elems, elems.len(),
{
    if elems.len() == 0 {
        Ok((acc, acc_out, st))
    } else {
        proof {
            assert(decreases_to!(elems => elems[0]));
            assert(elems.drop_first() =~= elems.subrange(1, elems.len() as int));
            assert(decreases_to!(elems => elems.drop_first()));
        }
        match spec_lower_expr(elems[0], st) {
            Err(er) => Err(er),
            Ok((ie, oe, st1)) => match or_reg(oe, acc_out) {
                None => Err(LangErrorV::NullValueExpression { span: expr_span(elems[0]) }),
                Some(src) => spec_lower_array_elems(
                    elems.drop_first(),
                    spec_alloc_mem(st1).1,
                    (acc + ie).push(
                        Inst {
                            instruction: Instruction::STR(
                                src,
                                reg_index,
                                Mode::PostOffset(offset),
                            ),
                            span: expr_span(elems[0]),
                        },
                    ),
                    or_reg(oe, acc_out),
                    reg_index,
                    offset,
                ),
            },
        }
    }
}

/// The generator state and designated output register after lowering one
/// statement, and the error where lowering fails; the emitted instructions
/// are covered by [`stmt_shape`], since label names are drawn at random.
pub open spec fn spec_stmt_effect(s: StatementV, st: GenStateV) -> Result<
    (GenStateV, Option<Reg>),
    LangErrorV,
>
    decreases s, 0int,
{
    match s {
        StatementV::Expr(e) => match spec_lower_expr(e, st) {
            Err(er) => Err(er),
            Ok((_, out, st1)) => Ok((st1, out)),
        },
        StatementV::Yield(e) => match spec_lower_expr(e, st) {
            Err(er) => Err(er),
            Ok((_, out, st1)) => Ok((st1, out)),
        },
        StatementV::Let(l) => if l.value is Array {
            let st0 = GenStateV {
                pointers: st.pointers.insert(l.variable, st.next_mem_addr),
                ..st
            };
            match spec_lower_expr(l.value, st0) {
                Err(er) => Err(er),
                Ok((_, out, st1)) => Ok((st1, out)),
            }
        } else {
            match spec_lower_expr(l.value, st) {
                Err(er) => Err(er),
                Ok((_, out, st1)) => match out {
                    None => Err(LangErrorV::NullValueExpression { span: expr_span(l.value) }),
                    Some(reg) => Ok(
                        (
                            GenStateV {
                                variables: st1.variables.insert(l.variable, reg),
                                ..st1
                            },
                            Some(reg),
                        ),
                    ),
                },
            }
        },
        StatementV::Mutate(m) => match spec_lower_expr(m.value, st) {
            Err(er) => Err(er),
            Ok((_, out, st1)) => if !st1.variables.contains_key(m.variable) {
                Err(LangErrorV::UninitialisedVariable { span: m.span, name: m.variable })
            } else {
                match out {
                    None => Err(LangErrorV::NullValueExpression { span: expr_span(m.value) }),
                    Some(_) => Ok((st1, out)),
                }
            },
        },
        StatementV::If(i) => match spec_lower_expr(i.condition, st) {
            Err(er) => Err(er),
            Ok((_, co, st1)) => {
                proof {
                    assert(decreases_to!(s => i.iff));
                }
                match spec_stmts_effect(i.iff, st1, None) {
                    Err(er) => Err(er),
                    Ok((st2, body_out)) => Ok((st2, or_reg(body_out, co))),
                }
            },
        },
        StatementV::While(w) => match spec_lower_expr(w.condition, st) {
            Err(er) => Err(er),
            Ok((_, co, st1)) => {
                proof {
                    assert(decreases_to!(s => w.body));
                }
                match spec_stmts_effect(w.body, st1, None) {
                    Err(er) => Err(er),
                    Ok((st2, body_out)) => Ok((st2, or_reg(body_out, co))),
                }
            },
        },
    }
}

/// The generator state and accumulated designated output register after
/// lowering a statement list.
pub open spec fn spec_stmts_effect(
    ss: Seq<StatementV>,
    st: GenStateV,
    acc_out: Option<Reg>,
) -> Result<(GenStateV, Option<Reg>), LangErrorV>
    decreases ss, ss.len(),
{
    if ss.len() == 0 {
        Ok((st, acc_out))
    } else {
        proof {
            assert(decreases_to!(ss => ss[0]));
            assert(ss.drop_first() =~= ss.subrange(1, ss.len() as int));
            assert(decreases_to!(ss => ss.drop_first()));
        }
        match spec_stmt_effect(ss[0], st) {
            Err(er) => Err(er),
            Ok((st1, o1)) => spec_stmts_effect(ss.drop_first(), st1, or_reg(o1, acc_out)),
        }
    }
}

/// The flag an `if` checks before branching into its body: the condition's
/// most recent comparison hint, or never when the condition holds no
/// comparison.
pub open spec fn spec_if_check(ci: Seq<Inst>) -> Flag {
    match latest_flag_hint_of(ci) {
        Some(fl) => fl,
        None => Flag::Nv,
    }
}

/// The flag a `while` checks before branching out to its break label: the
/// negation of the condition's most recent comparison hint. A condition with
/// no comparison negates to always, so the break is taken at once and the
/// body never runs.
pub open spec fn spec_while_check(ci: Seq<Inst>) -> Flag {
    match latest_flag_hint_of(ci) {
        Some(fl) => fl.spec_negate(),
        None => Flag::Al,
    }
}

/// What the instructions lowered from one statement look like, up to the
/// random label names: expressions lower exactly as [`spec_lower_expr`] says;
/// a yield appends `YLD`; a mutation appends `MOV` into the variable's
/// register; an `if` checks its condition's hint and branches over a label to
/// its body; a `while` brackets condition and body between a check label and
/// a break label.
pub open spec fn stmt_shape(s: StatementV, st: GenStateV, insts: Seq<Inst>) -> bool
    decreases s, 1int,
{
    match s {
        StatementV::Expr(e) => match spec_lower_expr(e, st) {
            Err(_) => false,
            Ok((ie, _, _)) => insts == ie,
        },
        StatementV::Yield(e) => match spec_lower_expr(e, st) {
            Err(_) => false,
            Ok((ie, oe, _)) => match oe {
                Some(r) => insts == ie.push(
                    Inst { instruction: Instruction::YLD(r), span: expr_span(e) },
                ),
                None => insts == ie,
            },
        },
        StatementV::Let(l) => if l.value is Array {
            let st0 = GenStateV {
                pointers: st.pointers.insert(l.variable, st.next_mem_addr),
                ..st
            };
            match spec_lower_expr(l.value, st0) {
                Err(_) => false,
                Ok((iv, _, _)) => insts == iv,
            }
        } else {
            match spec_lower_expr(l.value, st) {
                Err(_) => false,
                Ok((iv, ov, _)) => ov is Some && insts == iv,
            }
        },
        StatementV::Mutate(m) => match spec_lower_expr(m.value, st) {
            Err(_) => false,
            Ok((iv, ov, st1)) => ov matches Some(r) && st1.variables.contains_key(m.variable)
                && insts == iv.push(
                Inst {
                    instruction: Instruction::MOV(st1.variables[m.variable], r),
                    span: m.span,
                },
            ),
        },
        StatementV::If(i) => match spec_lower_expr(i.condition, st) {
            Err(_) => false,
            Ok((ci, _, st1)) => {
                proof {
                    assert(decreases_to!(s => i.iff));
                }
                exists|u: Seq<char>, la: String, lb: String, ea: String, eb: String, body: Seq<
                    Inst,
                >|
                    {
                        &&& u.len() == 36
                        &&& la@ == u + "-if"@
                        &&& lb@ == la@
                        &&& ea@ == u + "-end"@
                        &&& eb@ == ea@
                        &&& insts == ci + seq![
                            Inst {
                                instruction: Instruction::CHK(spec_if_check(ci)),
                                span: expr_span(i.condition),
                            },
                            Inst { instruction: Instruction::BRA(la), span: i.span },
                            Inst { instruction: Instruction::BRA(ea), span: i.span },
                            Inst { instruction: Instruction::LBL(lb), span: i.span },
                        ] + body + seq![Inst { instruction: Instruction::LBL(eb), span: i.span }]
                        &&& stmts_shape(i.iff, st1, body)
                    }
            },
        },
        StatementV::While(w) => match spec_lower_expr(w.condition, st) {
            Err(_) => false,
            Ok((ci, _, st1)) => {
                proof {
                    assert(decreases_to!(s => w.body));
                }
                exists|u: Seq<char>, ca: String, cb: String, ba: String, bb: String, body: Seq<
                    Inst,
                >|
                    {
                        &&& u.len() == 36
                        &&& ca@ == u + "-check-condition"@
                        &&& cb@ == ca@
                        &&& ba@ == u + "-break"@
                        &&& bb@ == ba@
                        &&& insts == seq![
                            Inst {
                                instruction: Instruction::LBL(ca),
                                span: expr_span(w.condition),
                            },
                        ] + ci + seq![
                            Inst {
                                instruction: Instruction::CHK(spec_while_check(ci)),
                                span: expr_span(w.condition),
                            },
                            Inst {
                                instruction: Instruction::BRA(ba),
                                span: expr_span(w.condition),
                            },
                        ] + body + seq![
                            Inst {
                                instruction: Instruction::BRA(cb),
                                span: expr_span(w.condition),
                            },
                            Inst {
                                instruction: Instruction::LBL(bb),
                                span: expr_span(w.condition),
                            },
                        ]
                        &&& stmts_shape(w.body, st1, body)
                    }
            },
        },
    }
}

/// What the instructions lowered from a statement list look like: one
/// statement's instructions after another, each shaped from the state its
/// predecessors left behind.
pub open spec fn stmts_shape(ss: Seq<StatementV>, st: GenStateV, insts: Seq<Inst>) -> bool
    decreases ss, ss.len() + 2,
{
    if ss.len() == 0 {
        insts == Seq::<Inst>::empty()
    } else {
        proof {
            assert(decreases_to!(ss => ss[0]));
            assert(ss.drop_first() =~= ss.subrange(1, ss.len() as int));
            assert(decreases_to!(ss => ss.drop_first()));
        }
        match spec_stmt_effect(ss[0], st) {
            Err(_) => false,
            Ok((st1, _)) => exists|i1: Seq<Inst>, rest: Seq<Inst>|
                {
                    &&& insts == i1 + rest
                    &&& stmt_shape(ss[0], st, i1)
                    &&& stmts_shape(ss.drop_first(), st1, rest)
                },
        }
    }
}

/// Register discipline of an instruction range: every freshly written
/// destination register lies in `[lo, hi)`, and destinations strictly
/// increase in instruction order.
pub open spec fn reg_discipline(insts: Seq<Inst>, lo: u32, hi: u32) -> bool {
    &&& lo <= hi
    &&& forall|k: int|
        0 <= k < insts.len() ==> match #[trigger] insts[k].instruction.spec_output_register() {
            Some(r) => lo <= r.0 < hi,
            None => true,
        }
    &&& forall|k1: int, k2: int|
        0 <= k1 < k2 < insts.len() ==> match (
            #[trigger] insts[k1].instruction.spec_output_register(),
            #[trigger] insts[k2].instruction.spec_output_register(),
        ) {
            (Some(r1), Some(r2)) => r1.0 < r2.0,
            _ => true,
        }
}

/// Discipline composes: ranges laid end to end stay disciplined.
pub proof fn lemma_reg_discipline_concat(a: Seq<Inst>, b: Seq<Inst>, lo: u32, mid: u32, hi: u32)
    requires
        reg_discipline(a, lo, mid),
        reg_discipline(b, mid, hi),
    ensures
        reg_discipline(a + b, lo, hi),
{
    assert forall|k: int| 0 <= k < (a + b).len() implies match #[trigger] (a
        + b)[k].instruction.spec_output_register() {
        Some(r) => lo <= r.0 < hi,
        None => true,
    } by {
        if k < a.len() {
            assert((a + b)[k] == a[k]);
        } else {
            assert((a + b)[k] == b[k - a.len()]);
        }
    }
    assert forall|k1: int, k2: int| 0 <= k1 < k2 < (a + b).len() implies match (
        #[trigger] (a + b)[k1].instruction.spec_output_register(),
        #[trigger] (a + b)[k2].instruction.spec_output_register(),
    ) {
        (Some(r1), Some(r2)) => r1.0 < r2.0,
        _ => true,
    } by {
        if k1 < a.len() {
            assert((a + b)[k1] == a[k1]);
        } else {
            assert((a + b)[k1] == b[k1 - a.len()]);
        }
        if k2 < a.len() {
            assert((a + b)[k2] == a[k2]);
        } else {
            assert((a + b)[k2] == b[k2 - a.len()]);
        }
    }
}

/// An instruction that writes no register keeps any range disciplined.
pub proof fn lemma_reg_discipline_push_silent(insts: Seq<Inst>, i: Inst, lo: u32, hi: u32)
    requires
        reg_discipline(insts, lo, hi),
        i.instruction.spec_output_register() is None,
    ensures
        reg_discipline(insts.push(i), lo, hi),
{
    assert forall|k: int| 0 <= k < insts.push(i).len() implies match #[trigger] insts.push(
        i,
    )[k].instruction.spec_output_register() {
        Some(r) => lo <= r.0 < hi,
        None => true,
    } by {
        if k < insts.len() {
            assert(insts.push(i)[k] == insts[k]);
        } else {
            assert(insts.push(i)[k] == i);
        }
    }
    assert forall|k1: int, k2: int| 0 <= k1 < k2 < insts.push(i).len() implies match (
        #[trigger] insts.push(i)[k1].instruction.spec_output_register(),
        #[trigger] insts.push(i)[k2].instruction.spec_output_register(),
    ) {
        (Some(r1), Some(r2)) => r1.0 < r2.0,
        _ => true,
    } by {
        if k1 < insts.len() {
            assert(insts.push(i)[k1] == insts[k1]);
        } else {
            assert(insts.push(i)[k1] == i);
        }
        if k2 < insts.len() {
            assert(insts.push(i)[k2] == insts[k2]);
        } else {
            assert(insts.push(i)[k2] == i);
        }
    }
}

/// An instruction writing the next register extends a disciplined range by
/// one.
pub proof fn lemma_reg_discipline_push_dest(insts: Seq<Inst>, i: Inst, lo: u32, hi: u32)
    requires
        reg_discipline(insts, lo, hi),
        hi < u32::MAX,
        i.instruction.spec_output_register() == Some(Reg(hi)),
    ensures
        reg_discipline(insts.push(i), lo, (hi + 1) as u32),
{
    assert forall|k: int| 0 <= k < insts.push(i).len() implies match #[trigger] insts.push(
        i,
    )[k].instruction.spec_output_register() {
        Some(r) => lo <= r.0 < hi + 1,
        None => true,
    } by {
        if k < insts.len() {
            assert(insts.push(i)[k] == insts[k]);
        } else {
            assert(insts.push(i)[k] == i);
        }
    }
    assert forall|k1: int, k2: int| 0 <= k1 < k2 < insts.push(i).len() implies match (
        #[trigger] insts.push(i)[k1].instruction.spec_output_register(),
        #[trigger] insts.push(i)[k2].instruction.spec_output_register(),
    ) {
        (Some(r1), Some(r2)) => r1.0 < r2.0,
        _ => true,
    } by {
        if k1 < insts.len() {
            assert(insts.push(i)[k1] == insts[k1]);
        } else {
            assert(insts.push(i)[k1] == i);
        }
        if k2 < insts.len() {
            assert(insts.push(i)[k2] == insts[k2]);
        } else {
            assert(insts.push(i)[k2] == i);
        }
    }
}


/// Relies on uuid::Uuid::new_v4 rendered in its hyphenated form: a fresh
/// random identifier of exactly 36 characters. Nothing more can be promised
/// of a random value — in particular not that two draws differ, so no
/// contract here promises that the label names of a lowered program are
/// distinct, and a branch goes to the first label of its name.
#[verifier::external_body]
fn fresh_uuid_string() -> (r: String)
    ensures
        r@.len() == 36,
{
    uuid::Uuid::new_v4().as_hyphenated().to_string()
}

impl Literal {
    /// Lower a literal: one constant introduction into a fresh register.
    pub fn lower(&self, state: &mut GenerationState) -> (r: Result<Block, LangError>)
        ensures
            match spec_lower_expr(ExpressionV::Literal { lit: *self }, old(state)@) {
                Ok(t) => r matches Ok(b) && b.instructions@ == t.0 && b.output_register == t.1
                    && final(state)@ == t.2,
                Err(e) => r matches Err(x) && x@ == e,
            },
    {
        let reg = state.next_register();
        let word: u32 = match self {
            Literal::Char { val, span: _ } => *val as u32,
            Literal::Number { val, span: _ } => *val as u32,
            Literal::Boolean { val, span: _ } => if *val {
                1
            } else {
                0
            },
        };
        Ok(Block::new(Inst::new(Instruction::CON(reg, word), self.span())))
    }
}

impl Identifier {
    /// Lower an identifier: no instruction; the block designates the
    /// variable's existing register.
    pub fn lower(&self, state: &mut GenerationState) -> (r: Result<Block, LangError>)
        ensures
            match spec_lower_expr(ExpressionV::Identifier(self@), old(state)@) {
                Ok(t) => r matches Ok(b) && b.instructions@ == t.0 && b.output_register == t.1
                    && final(state)@ == t.2,
                Err(e) => r matches Err(x) && x@ == e,
            },
            r matches Err(_) ==> final(state)@ == old(state)@,
    {
        let variable_register = match state.variable_register(&self.id, self.span) {
            Ok(reg) => reg,
            Err(e) => {
                return Err(e);
            },
        };
        let mut block = Block::empty();
        block.set_output_register(Some(variable_register));
        Ok(block)
    }
}

impl Application {
    /// Lower an operator application.
    pub fn lower(&self, state: &mut GenerationState) -> (r: Result<Block, LangError>)
        ensures
            match spec_lower_app(self@, old(state)@) {
                Ok(t) => r matches Ok(b) && b.instructions@ == t.0 && b.output_register == t.1
                    && final(state)@ == t.2,
                Err(e) => r matches Err(x) && x@ == e,
            },
            r matches Err(_) ==> final(state)@.variables == old(state)@.variables && final(state)@.pointers == old(state)@.pointers,
        decreases *self,
    {
        match self {
            Application::Unary { op, expr, span } => {
                let mut block = match expr.lower(state) {
                    Ok(b) => b,
                    Err(e) => {
                        return Err(e);
                    },
                };
                proof {
                    lemma_lower_expr_preserves_tables(expr_view(**expr), old(state)@);
                }
                let rx = match block.output_register() {
                    Some(rr) => rr,
                    None => {
                        return Err(LangError::NullValueExpression { span: expr.span() });
                    },
                };
                match op {
                    OperatorType::Not => {
                        let rd = state.next_register();
                        block.append_inst(Inst::new(Instruction::NOT(rd, rx), *span));
                        Ok(block)
                    },
                    OperatorType::Minus => {
                        let rz = state.next_register();
                        let rd = state.next_register();
                        block.append_inst(Inst::new(Instruction::CON(rz, 0), *span));
                        block.append_inst(Inst::new(Instruction::SUB(rd, rz, rx), *span));
                        Ok(block)
                    },
                    _ => Err(
                        LangError::InvalidUnaryOperator { span: *span, op: op_token(op) },
                    ),
                }
            },
            Application::Binary { op, left, right, span } => {
                let ghost st0 = state@;
                let mut rx_block = match left.lower(state) {
                    Ok(b) => b,
                    Err(e) => {
                        return Err(e);
                    },
                };
                proof {
                    lemma_lower_expr_preserves_tables(expr_view(**left), old(state)@);
                }
                let rx = match rx_block.output_register() {
                    Some(rr) => rr,
                    None => {
                        return Err(LangError::NullValueExpression { span: left.span() });
                    },
                };
                let ghost st_mid = state@;
                let ry_block = match right.lower(state) {
                    Ok(b) => b,
                    Err(e) => {
                        return Err(e);
                    },
                };
                proof {
                    lemma_lower_expr_preserves_tables(expr_view(**right), st_mid);
                }
                let ry = match ry_block.output_register() {
                    Some(rr) => rr,
                    None => {
                        return Err(LangError::NullValueExpression { span: right.span() });
                    },
                };
                rx_block.extend(ry_block);
                let inst: Instruction = match op {
                    OperatorType::Plus => Instruction::ADD(state.next_register(), rx, ry),
                    OperatorType::Minus => Instruction::SUB(state.next_register(), rx, ry),
                    OperatorType::Multiply => Instruction::MUL(state.next_register(), rx, ry),
                    OperatorType::Divide => Instruction::DIV(state.next_register(), rx, ry),
                    OperatorType::LessThan => Instruction::CMP(rx, ry, Some(Flag::Lt)),
                    OperatorType::LessThanEq => Instruction::CMP(rx, ry, Some(Flag::Le)),
                    OperatorType::GreaterThan => Instruction::CMP(rx, ry, Some(Flag::Gt)),
                    OperatorType::GreaterThanEq => Instruction::CMP(rx, ry, Some(Flag::Ge)),
                    OperatorType::NotEqual => Instruction::CMP(rx, ry, Some(Flag::Ne)),
                    OperatorType::Equal => Instruction::CMP(rx, ry, Some(Flag::Eq)),
                    OperatorType::Not => {
                        return Err(
                            LangError::InvalidBinaryOperator { span: *span, op: op_token(op) },
                        );
                    },
                };
                rx_block.append_inst(Inst::new(inst, *span));
                Ok(rx_block)
            },
        }
    }
}

/// The token a stray operator is reported as.
fn op_token(op: &OperatorType) -> (r: crate::token::TokenType)
    ensures
        r@ == spec_op_token(*op),
{
    match op {
        OperatorType::Plus => crate::token::TokenType::Plus,
        OperatorType::Minus => crate::token::TokenType::Minus,
        OperatorType::Divide => crate::token::TokenType::Slash,
        OperatorType::Multiply => crate::token::TokenType::Star,
        OperatorType::LessThan => crate::token::TokenType::LessThan,
        OperatorType::GreaterThan => crate::token::TokenType::GreaterThan,
        OperatorType::LessThanEq => crate::token::TokenType::LessThanEq,
        OperatorType::GreaterThanEq => crate::token::TokenType::GreaterThanEq,
        OperatorType::Equal => crate::token::TokenType::EqEq,
        OperatorType::Not => crate::token::TokenType::Bang,
        OperatorType::NotEqual => crate::token::TokenType::BangEq,
    }
}

impl Expression {
    /// Lower an expression to a block, exactly as [`spec_lower_expr`] says.
    #[verifier::loop_isolation(false)]
    #[verifier::rlimit(80)]
    #[verifier::spinoff_prover]
    pub fn lower(&self, state: &mut GenerationState) -> (r: Result<Block, LangError>)
        ensures
            match spec_lower_expr(self@, old(state)@) {
                Ok(t) => r matches Ok(b) && b.instructions@ == t.0 && b.output_register == t.1
                    && final(state)@ == t.2,
                Err(e) => r matches Err(x) && x@ == e,
            },
            r matches Err(_) ==> final(state)@.variables == old(state)@.variables && final(state)@.pointers == old(state)@.pointers,
        decreases *self,
    {
        match self {
            Expression::Literal { lit } => lit.lower(state),
            Expression::App { app } => app.lower(state),
            Expression::Group { expr, span: _ } => expr.lower(state),
            Expression::Identifier(identifier) => identifier.lower(state),
            Expression::Array { elements, span } => {
                let ghost st0 = state@;
                let mut array_initialisation = Block::empty();
                let reg_index = state.next_register();
                let offset = state.next_register();
                let mem = state.next_mem_addr;
                array_initialisation.append_inst(
                    Inst::new(Instruction::CON(reg_index, mem_word(mem)), *span),
                );
                array_initialisation.append_inst(
                    Inst::new(Instruction::CON(offset, WORD_SIZE as u32), *span),
                );
                let ghost init = array_initialisation.instructions@;
                let ghost st3 = state@;
                let n = elements.len();
                let mut k: usize = 0;
                proof {
                    crate::ast::lemma_exprs_view_len(elements@);
                    assert(exprs_view(elements@).subrange(0, n as int) =~= exprs_view(elements@));
                    assert(init =~= seq![
                        Inst {
                            instruction: Instruction::CON(
                                reg_index,
                                spec_mem_word(spec_alloc(spec_alloc(st0).1).1.next_mem_addr),
                            ),
                            span: *span,
                        },
                        Inst { instruction: Instruction::CON(offset, WORD_SIZE as u32), span: *span },
                    ]);
                    assert(spec_lower_expr(self@, st0) == spec_lower_array_elems(
                        exprs_view(elements@),
                        st3,
                        init,
                        Some(offset),
                        reg_index,
                        offset,
                    ));
                }
                while k < n
                    invariant
                        n == elements@.len(),
                        k <= n,
                        exprs_view(elements@).len() == n,
                        state@.variables == st0.variables,
                        state@.pointers == st0.pointers,
                        spec_lower_expr(self@, st0) == spec_lower_array_elems(
                            exprs_view(elements@).subrange(k as int, n as int),
                            state@,
                            array_initialisation.instructions@,
                            array_initialisation.output_register,
                            reg_index,
                            offset,
                        ),
                    decreases n - k,
                {
                    proof {
                        assert(decreases_to!(*self => (*elements)));
                        assert(decreases_to!((*elements) => elements@[k as int]));
                        assert(decreases_to!(*self => elements@[k as int]));
                        crate::ast::lemma_exprs_view_index(elements@, k as int);
                        let ss = exprs_view(elements@).subrange(k as int, n as int);
                        assert(ss[0] == exprs_view(elements@)[k as int]);
                        assert(ss.drop_first() =~= exprs_view(elements@).subrange(
                            k as int + 1,
                            n as int,
                        ));
                    }
                    let element = &elements[k];
                    let ghost st_elem = state@;
                    let element_expr = match element.lower(state) {
                        Ok(b) => b,
                        Err(e) => {
                            return Err(e);
                        },
                    };
                    proof {
                        lemma_lower_expr_preserves_tables(expr_view(elements@[k as int]), st_elem);
                    }
                    array_initialisation.extend(element_expr);
                    let src = match array_initialisation.output_register() {
                        Some(rr) => rr,
                        None => {
                            return Err(
                                LangError::NullValueExpression { span: element.span() },
                            );
                        },
                    };
                    array_initialisation.append_inst(
                        Inst::new(
                            Instruction::STR(src, reg_index, Mode::PostOffset(offset)),
                            element.span(),
                        ),
                    );
                    let _slot: usize = state.next_mem_addr();
                    k = k + 1;
                }
                proof {
                    assert(exprs_view(elements@).subrange(n as int, n as int) =~= Seq::<
                        ExpressionV,
                    >::empty());
                }
                Ok(array_initialisation)
            },
            Expression::Index { variable, index: index_expr, span } => {
                let base_addr = match state.deref_pointer(&variable.id, *span) {
                    Ok(a) => a,
                    Err(e) => {
                        return Err(e);
                    },
                };
                let r_base_addr = state.next_register();
                let mut block = Block::new(
                    Inst::new(Instruction::CON(r_base_addr, mem_word(base_addr)), *span),
                );
                let ghost st_idx = state@;
                let index_block = match index_expr.lower(state) {
                    Ok(b) => b,
                    Err(e) => {
                        return Err(e);
                    },
                };
                proof {
                    lemma_lower_expr_preserves_tables(expr_view(**index_expr), st_idx);
                }
                let r_index_output = match index_block.output_register() {
                    Some(rr) => rr,
                    None => {
                        return Err(
                            LangError::NullValueExpression { span: index_expr.span() },
                        );
                    },
                };
                block.extend(index_block);
                let r_word_size = state.next_register();
                block.append_inst(
                    Inst::new(Instruction::CON(r_word_size, WORD_SIZE as u32), index_expr.span()),
                );
                let r_index = state.next_register();
                block.append_inst(
                    Inst::new(
                        Instruction::MUL(r_index, r_index_output, r_word_size),
                        index_expr.span(),
                    ),
                );
                let r_data = state.next_register();
                block.append_inst(
                    Inst::new(Instruction::LDR(r_data, r_base_addr, Mode::Offset(r_index)), *span),
                );
                proof {
                    assert(block.instructions@ =~= seq![
                        Inst {
                            instruction: Instruction::CON(
                                r_base_addr,
                                spec_mem_word(old(state)@.pointers[variable@.id]),
                            ),
                            span: *span,
                        },
                    ] + spec_lower_expr(expr_view(**index_expr), spec_alloc(old(state)@).1)->Ok_0.0
                        + seq![
                        Inst {
                            instruction: Instruction::CON(r_word_size, WORD_SIZE as u32),
                            span: expr_span(expr_view(**index_expr)),
                        },
                        Inst {
                            instruction: Instruction::MUL(r_index, r_index_output, r_word_size),
                            span: expr_span(expr_view(**index_expr)),
                        },
                        Inst {
                            instruction: Instruction::LDR(
                                r_data,
                                r_base_addr,
                                Mode::Offset(r_index),
                            ),
                            span: *span,
                        },
                    ]);
                }
                Ok(block)
            },
        }
    }
}

impl Let {
    /// Lower a binding: an array literal binds its name to the base address
    /// it will occupy, anything else binds its name to the lowered value's
    /// output register. A failed binding leaves the value variables
    /// untouched, and the pointer table too unless the value was an array
    /// literal, whose base address is recorded before its elements lower.
    pub fn lower(&self, state: &mut GenerationState) -> (r: Result<Block, LangError>)
        ensures
            match spec_stmt_effect(StatementV::Let(self@), old(state)@) {
                Ok(t) => r matches Ok(b) && final(state)@ == t.0 && b.output_register == t.1
                    && stmt_shape(StatementV::Let(self@), old(state)@, b.instructions@),
                Err(e) => r matches Err(x) && x@ == e,
            },
            r matches Err(_) ==> final(state)@.variables == old(state)@.variables,
            r matches Err(_) && !(self@.value is Array) ==> final(state)@.pointers == old(
                state,
            )@.pointers,
        decreases *self,
    {
        let is_array = match &self.value {
            Expression::Array { .. } => true,
            _ => false,
        };
        if is_array {
            let base_mem_addr = state.next_mem_addr;
            state.initialise_pointer(self.variable.clone(), base_mem_addr);
            self.value.lower(state)
        } else {
            let ghost st0 = state@;
            let block = match self.value.lower(state) {
                Ok(b) => b,
                Err(e) => {
                    return Err(e);
                },
            };
            proof {
                lemma_lower_expr_preserves_tables(expr_view(self.value), st0);
            }
            match block.output_register() {
                Some(reg) => {
                    state.initialise_variable(self.variable.clone(), reg);
                    Ok(block)
                },
                None => Err(LangError::NullValueExpression { span: self.value.span() }),
            }
        }
    }
}

impl Mutate {
    /// Lower a mutation: the value's instructions, then a move into the
    /// variable's register. A failed mutation leaves both symbol tables
    /// untouched.
    pub fn lower(&self, state: &mut GenerationState) -> (r: Result<Block, LangError>)
        ensures
            match spec_stmt_effect(StatementV::Mutate(self@), old(state)@) {
                Ok(t) => r matches Ok(b) && final(state)@ == t.0 && b.output_register == t.1
                    && stmt_shape(StatementV::Mutate(self@), old(state)@, b.instructions@),
                Err(e) => r matches Err(x) && x@ == e,
            },
            r matches Err(_) ==> final(state)@.variables == old(state)@.variables && final(state)@.pointers == old(state)@.pointers,
        decreases *self,
    {
        let ghost st0 = state@;
        let mut block = match self.value.lower(state) {
            Ok(b) => b,
            Err(e) => {
                return Err(e);
            },
        };
        proof {
            lemma_lower_expr_preserves_tables(expr_view(self.value), st0);
        }
        let variable_register = match state.variable_register(&self.variable, self.span) {
            Ok(reg) => reg,
            Err(e) => {
                return Err(e);
            },
        };
        match block.output_register() {
            Some(reg) => {
                block.append_inst(
                    Inst::new(Instruction::MOV(variable_register, reg), self.span),
                );
                Ok(block)
            },
            None => Err(LangError::NullValueExpression { span: self.value.span() }),
        }
    }
}

impl If {
    /// Lower a conditional: the condition, a check of its most recent
    /// comparison hint (or never), a branch into the body's fresh label when
    /// the check succeeds, and a branch past the body when it fails (so a
    /// never check makes the body dead).
    pub fn lower(&self, state: &mut GenerationState) -> (r: Result<Block, LangError>)
        ensures
            match spec_stmt_effect(StatementV::If(self@), old(state)@) {
                Ok(t) => r matches Ok(b) && final(state)@ == t.0 && b.output_register == t.1
                    && stmt_shape(StatementV::If(self@), old(state)@, b.instructions@),
                Err(e) => r matches Err(x) && x@ == e,
            },
        decreases *self, 1int,
    {
        let ghost st0 = state@;
        let mut if_block = match self.condition.lower(state) {
            Ok(b) => b,
            Err(e) => {
                return Err(e);
            },
        };
        let ghost ci = if_block.instructions@;
        let hint = if_block.latest_flag_hint();
        let chk = match hint {
            Some(fl) => fl,
            None => Flag::Nv,
        };
        if_block.append_inst(Inst::new(Instruction::CHK(chk), self.condition.span()));
        let label_uuid = fresh_uuid_string();
        let ghost uuid_chars = label_uuid@;
        let mut if_label = label_uuid.clone();
        if_label.append("-if");
        let mut end_label = label_uuid;
        end_label.append("-end");
        let label_copy = if_label.clone();
        let end_copy = end_label.clone();
        let ghost la = if_label;
        let ghost lb = label_copy;
        let ghost ea = end_label;
        let ghost eb = end_copy;
        if_block.append_inst(Inst::new(Instruction::BRA(if_label), self.span));
        if_block.append_inst(Inst::new(Instruction::BRA(end_label), self.span));
        let mut inner_block = Block::new(Inst::new(Instruction::LBL(label_copy), self.span));
        proof {
            assert(self.iff@.subrange(0, self.iff@.len() as int) =~= self.iff@);
        }
        match lower_from(&self.iff, 0, state, &mut inner_block) {
            Ok(_) => {},
            Err(e) => {
                return Err(e);
            },
        }
        let ghost body = choose|body: Seq<Inst>|
            inner_block.instructions@ == seq![
                Inst { instruction: Instruction::LBL(lb), span: self.span },
            ] + body && stmts_shape(stmts_view(self.iff@), spec_lower_expr(
                expr_view(self.condition),
                st0,
            )->Ok_0.2, body);
        if_block.extend(inner_block);
        if_block.append_inst(Inst::new(Instruction::LBL(end_copy), self.span));
        proof {
            assert(la@ == uuid_chars + "-if"@);
            assert(ea@ == uuid_chars + "-end"@);
            assert(if_block.instructions@ =~= ci + seq![
                Inst {
                    instruction: Instruction::CHK(spec_if_check(ci)),
                    span: expr_span(expr_view(self.condition)),
                },
                Inst { instruction: Instruction::BRA(la), span: self.span },
                Inst { instruction: Instruction::BRA(ea), span: self.span },
                Inst { instruction: Instruction::LBL(lb), span: self.span },
            ] + body + seq![Inst { instruction: Instruction::LBL(eb), span: self.span }]);
        }
        Ok(if_block)
    }
}

impl While {
    /// Lower a loop: a check label, the condition, a check of the negated
    /// hint branching to a fresh break label (always, when the condition
    /// holds no comparison, so such a body never runs), the body, a jump back
    /// to the check label, and the break label.
    pub fn lower(&self, state: &mut GenerationState) -> (r: Result<Block, LangError>)
        ensures
            match spec_stmt_effect(StatementV::While(self@), old(state)@) {
                Ok(t) => r matches Ok(b) && final(state)@ == t.0 && b.output_register == t.1
                    && stmt_shape(StatementV::While(self@), old(state)@, b.instructions@),
                Err(e) => r matches Err(x) && x@ == e,
            },
        decreases *self, 1int,
    {
        let ghost st0 = state@;
        let label_uuid = fresh_uuid_string();
        let ghost u = label_uuid@;
        let mut check_condition_label = label_uuid.clone();
        check_condition_label.append("-check-condition");
        let mut break_label = label_uuid;
        break_label.append("-break");
        let check_copy = check_condition_label.clone();
        let break_copy = break_label.clone();
        let ghost ca = check_condition_label;
        let ghost cb = check_copy;
        let ghost ba = break_label;
        let ghost bb = break_copy;
        let mut while_block = Block::new(
            Inst::new(Instruction::LBL(check_condition_label), self.condition.span()),
        );
        let cond_block = match self.condition.lower(state) {
            Ok(b) => b,
            Err(e) => {
                return Err(e);
            },
        };
        let ghost ci = cond_block.instructions@;
        while_block.extend(cond_block);
        proof {
            let lbl_inst = Inst {
                instruction: Instruction::LBL(ca),
                span: expr_span(expr_view(self.condition)),
            };
            assert(inst_hint(lbl_inst) is None);
            assert(seq![lbl_inst].drop_last() =~= Seq::<Inst>::empty());
            assert(seq![lbl_inst].last() == lbl_inst);
            assert(latest_flag_hint_of(Seq::<Inst>::empty()) is None);
            assert(latest_flag_hint_of(seq![lbl_inst]) is None);
            crate::block::lemma_flag_hint_of_concat(seq![lbl_inst], ci);
            assert(while_block.instructions@ =~= seq![lbl_inst] + ci);
            assert(latest_flag_hint_of(while_block.instructions@) == latest_flag_hint_of(ci));
        }
        let hint = while_block.latest_flag_hint();
        let chk = match hint {
            Some(fl) => fl.negate(),
            None => Flag::Al,
        };
        while_block.append_inst(Inst::new(Instruction::CHK(chk), self.condition.span()));
        while_block.append_inst(Inst::new(Instruction::BRA(break_label), self.condition.span()));
        let mut inner_block = Block::empty();
        proof {
            assert(self.body@.subrange(0, self.body@.len() as int) =~= self.body@);
        }
        match lower_from(&self.body, 0, state, &mut inner_block) {
            Ok(_) => {},
            Err(e) => {
                return Err(e);
            },
        }
        let ghost body = choose|body: Seq<Inst>|
            inner_block.instructions@ == Seq::<Inst>::empty() + body && stmts_shape(
                stmts_view(self.body@),
                spec_lower_expr(expr_view(self.condition), st0)->Ok_0.2,
                body,
            );
        inner_block.append_inst(
            Inst::new(Instruction::BRA(check_copy), self.condition.span()),
        );
        while_block.extend(inner_block);
        while_block.append_inst(Inst::new(Instruction::LBL(break_copy), self.condition.span()));
        proof {
            assert(self.body@.subrange(0, self.body@.len() as int) =~= self.body@);
            assert(body =~= Seq::<Inst>::empty() + body);
            assert(while_block.instructions@ =~= seq![
                Inst {
                    instruction: Instruction::LBL(ca),
                    span: expr_span(expr_view(self.condition)),
                },
            ] + ci + seq![
                Inst {
                    instruction: Instruction::CHK(spec_while_check(ci)),
                    span: expr_span(expr_view(self.condition)),
                },
                Inst {
                    instruction: Instruction::BRA(ba),
                    span: expr_span(expr_view(self.condition)),
                },
            ] + body + seq![
                Inst {
                    instruction: Instruction::BRA(cb),
                    span: expr_span(expr_view(self.condition)),
                },
                Inst {
                    instruction: Instruction::LBL(bb),
                    span: expr_span(expr_view(self.condition)),
                },
            ]);
        }
        Ok(while_block)
    }
}

impl Statement {
    /// Lower one statement to a block. A failed `if` or `while` may leave
    /// behind the bindings committed by the body statements lowered before
    /// the failure; the other statement forms leave the symbol tables as the
    /// per-form contracts say.
    pub fn lower(&self, state: &mut GenerationState) -> (r: Result<Block, LangError>)
        ensures
            match spec_stmt_effect(self@, old(state)@) {
                Ok(t) => r matches Ok(b) && final(state)@ == t.0 && b.output_register == t.1
                    && stmt_shape(self@, old(state)@, b.instructions@),
                Err(e) => r matches Err(x) && x@ == e,
            },
        decreases *self, 2int,
    {
        match self {
            Statement::Expr(expr) => expr.lower(state),
            Statement::Let(l) => l.lower(state),
            Statement::Mutate(mutate) => mutate.lower(state),
            Statement::If(i) => i.lower(state),
            Statement::While(w) => w.lower(state),
            Statement::Yield(expr) => {
                let mut expr_block = match expr.lower(state) {
                    Ok(b) => b,
                    Err(e) => {
                        return Err(e);
                    },
                };
                match expr_block.output_register() {
                    None => (),
                    Some(reg) => {
                        expr_block.append_inst(Inst::new(Instruction::YLD(reg), expr.span()));
                    },
                }
                Ok(expr_block)
            },
        }
    }
}

/// Lower the statements from position `k` on, extending `block` with their
/// instructions in order.
fn lower_from(
    stmts: &Vec<Statement>,
    k: usize,
    state: &mut GenerationState,
    block: &mut Block,
) -> (r: Result<(), LangError>)
    requires
        k <= stmts@.len(),
    ensures
        match spec_stmts_effect(
            stmts_view(stmts@.subrange(k as int, stmts@.len() as int)),
            old(state)@,
            old(block).output_register,
        ) {
            Ok(t) => r matches Ok(u) && final(state)@ == t.0 && final(block).output_register == t.1
                && (exists|body: Seq<Inst>|
                final(block).instructions@ == old(block).instructions@ + body && stmts_shape(
                    stmts_view(stmts@.subrange(k as int, stmts@.len() as int)),
                    old(state)@,
                    body,
                )),
            Err(e) => r matches Err(x) && x@ == e,
        },
    decreases *stmts, stmts@.len() - k,
{
    let ghost ss = stmts_view(stmts@.subrange(k as int, stmts@.len() as int));
    if k >= stmts.len() {
        proof {
            assert(stmts@.subrange(k as int, stmts@.len() as int) =~= Seq::<Statement>::empty());
            assert(block.instructions@ =~= block.instructions@ + Seq::<Inst>::empty());
        }
        return Ok(());
    }
    proof {
        assert(decreases_to!(*stmts => stmts@[k as int]));
        crate::ast::lemma_stmts_view_len(stmts@.subrange(k as int, stmts@.len() as int));
        crate::ast::lemma_stmts_view_index(stmts@.subrange(k as int, stmts@.len() as int), 0);
        assert(stmts@.subrange(k as int, stmts@.len() as int)[0] == stmts@[k as int]);
        assert(stmts@.subrange(k as int, stmts@.len() as int).drop_first() =~= stmts@.subrange(
            k as int + 1,
            stmts@.len() as int,
        ));
    }
    let ghost st_before = state@;
    let ghost acc_before = block.output_register;
    let ghost insts_before = block.instructions@;
    let stmt_block = match stmts[k].lower(state) {
        Ok(b) => b,
        Err(e) => {
            proof {
                assert(ss[0] == stmt_view(stmts@[k as int]));
            }
            return Err(e);
        },
    };
    let ghost stmt_insts = stmt_block.instructions@;
    block.extend(stmt_block);
    proof {
        assert(ss[0] == stmt_view(stmts@[k as int]));
        assert(ss.drop_first() =~= stmts_view(
            stmts@.subrange(k as int + 1, stmts@.len() as int),
        )) by {
            lemma_stmts_view_drop_first(stmts@.subrange(k as int, stmts@.len() as int));
        }
    }
    let res = lower_from(stmts, k + 1, state, block);
    proof {
        if res is Ok {
            let rest_body = choose|body: Seq<Inst>|
                block.instructions@ == (insts_before + stmt_insts) + body && stmts_shape(
                    stmts_view(stmts@.subrange(k as int + 1, stmts@.len() as int)),
                    spec_stmt_effect(stmt_view(stmts@[k as int]), st_before)->Ok_0.0,
                    body,
                );
            assert(block.instructions@ =~= insts_before + (stmt_insts + rest_body));
            assert(stmts_shape(ss, st_before, stmt_insts + rest_body));
        }
    }
    res
}

/// The views of a statement sequence drop in step with the sequence.
proof fn lemma_stmts_view_drop_first(s: Seq<Statement>)
    requires
        s.len() > 0,
    ensures
        stmts_view(s).drop_first() == stmts_view(s.drop_first()),
{
    crate::ast::lemma_stmts_view_len(s);
    crate::ast::lemma_stmts_view_len(s.drop_first());
    assert forall|i: int| 0 <= i < stmts_view(s).drop_first().len() implies stmts_view(
        s,
    ).drop_first()[i] == stmts_view(s.drop_first())[i] by {
        crate::ast::lemma_stmts_view_index(s, i + 1);
        crate::ast::lemma_stmts_view_index(s.drop_first(), i);
    }
    assert(stmts_view(s).drop_first() =~= stmts_view(s.drop_first()));
}

/// Whether a statement list and the blocks lowered from it correspond one to
/// one: each block is shaped from its statement at the state its
/// predecessors left behind, and designates that statement's output register.
pub open spec fn blocks_shape(ss: Seq<StatementV>, st: GenStateV, blocks: Seq<Block>) -> bool
    decreases ss,
{
    if ss.len() == 0 {
        blocks.len() == 0
    } else {
        proof {
            assert(decreases_to!(ss => ss[0]));
            assert(ss.drop_first() =~= ss.subrange(1, ss.len() as int));
            assert(decreases_to!(ss => ss.drop_first()));
        }
        match spec_stmt_effect(ss[0], st) {
            Err(_) => false,
            Ok((st1, out)) => blocks.len() > 0 && stmt_shape(ss[0], st, blocks[0].instructions@)
                && blocks[0].output_register == out && blocks_shape(
                ss.drop_first(),
                st1,
                blocks.drop_first(),
            ),
        }
    }
}

/// Generate the blocks of a program, one per top-level statement.
pub fn generate_program(state: &mut GenerationState, statements: Vec<Statement>) -> (r: Result<
    Vec<Block>,
    LangError,
>)
    ensures
        match spec_stmts_effect(stmts_view(statements@), old(state)@, None) {
            Ok(t) => r matches Ok(v) && final(state)@ == t.0 && blocks_shape(
                stmts_view(statements@),
                old(state)@,
                v@,
            ),
            Err(e) => r matches Err(x) && x@ == e,
        },
{
    proof {
        assert(statements@.subrange(0, statements@.len() as int) =~= statements@);
    }
    gen_from(&statements, 0, state)
}

/// Generate the blocks of the statements from position `k` on.
fn gen_from(statements: &Vec<Statement>, k: usize, state: &mut GenerationState) -> (r: Result<
    Vec<Block>,
    LangError,
>)
    requires
        k <= statements@.len(),
    ensures
        match spec_stmts_effect(
            stmts_view(statements@.subrange(k as int, statements@.len() as int)),
            old(state)@,
            None,
        ) {
            Ok(t) => r matches Ok(v) && final(state)@ == t.0 && blocks_shape(
                stmts_view(statements@.subrange(k as int, statements@.len() as int)),
                old(state)@,
                v@,
            ),
            Err(e) => r matches Err(x) && x@ == e,
        },
    decreases *statements, statements@.len() - k,
{
    let ghost ss = stmts_view(statements@.subrange(k as int, statements@.len() as int));
    if k >= statements.len() {
        proof {
            assert(statements@.subrange(k as int, statements@.len() as int) =~= Seq::<
                Statement,
            >::empty());
        }
        return Ok(Vec::new());
    }
    proof {
        assert(decreases_to!(*statements => statements@[k as int]));
        crate::ast::lemma_stmts_view_len(statements@.subrange(k as int, statements@.len() as int));
        crate::ast::lemma_stmts_view_index(
            statements@.subrange(k as int, statements@.len() as int),
            0,
        );
        let ghost kk = k as int;
        assert(statements@.subrange(k as int, statements@.len() as int)[0] == statements@[kk]);
        lemma_stmts_view_drop_first(statements@.subrange(k as int, statements@.len() as int));
        assert(statements@.subrange(k as int, statements@.len() as int).drop_first()
            =~= statements@.subrange(k as int + 1, statements@.len() as int));
    }
    let ghost st_before = state@;
    let block = match statements[k].lower(state) {
        Ok(b) => b,
        Err(e) => {
            return Err(e);
        },
    };
    let rest = match gen_from(statements, k + 1, state) {
        Ok(v) => v,
        Err(e) => {
            proof {
                lemma_stmts_effect_out_any(
                    stmts_view(statements@.subrange(k as int + 1, statements@.len() as int)),
                    spec_stmt_effect(ss[0], st_before)->Ok_0.0,
                    None,
                    or_reg(
                        spec_stmt_effect(ss[0], st_before)->Ok_0.1,
                        None,
                    ),
                );
            }
            return Err(e);
        },
    };
    let mut out: Vec<Block> = Vec::new();
    out.push(block);
    let mut rest = rest;
    let ghost rest0 = rest@;
    out.append(&mut rest);
    proof {
        lemma_stmts_effect_out_any(
            stmts_view(statements@.subrange(k as int + 1, statements@.len() as int)),
            spec_stmt_effect(ss[0], st_before)->Ok_0.0,
            None,
            or_reg(spec_stmt_effect(ss[0], st_before)->Ok_0.1, None),
        );
        assert(out@.drop_first() =~= rest0);
    }
    Ok(out)
}

/// The state a statement list's lowering ends in, and whether it fails, do
/// not depend on the output register accumulated so far.
proof fn lemma_stmts_effect_out_any(
    ss: Seq<StatementV>,
    st: GenStateV,
    a1: Option<Reg>,
    a2: Option<Reg>,
)
    ensures
        match (spec_stmts_effect(ss, st, a1), spec_stmts_effect(ss, st, a2)) {
            (Ok(t1), Ok(t2)) => t1.0 == t2.0,
            (Err(e1), Err(e2)) => e1 == e2,
            _ => false,
        },
    decreases ss.len(),
{
    if ss.len() > 0 {
        match spec_stmt_effect(ss[0], st) {
            Err(_) => {},
            Ok((st1, o1)) => {
                lemma_stmts_effect_out_any(ss.drop_first(), st1, or_reg(o1, a1), or_reg(o1, a2));
            },
        }
    }
}


/// Law: register numbering is strictly monotonic. Lowering an expression
/// never lowers the register counter, and — as long as the counter stays
/// below its ceiling — every register freshly written by the emitted
/// instructions lies between the counter before and after, in strictly
/// increasing instruction order. Registers are never reused.
pub proof fn lemma_lower_expr_registers(e: ExpressionV, st: GenStateV)
    ensures
        match spec_lower_expr(e, st) {
            Ok(t) => st.next_reg <= t.2.next_reg && (t.2.next_reg < u32::MAX ==> reg_discipline(
                t.0,
                st.next_reg,
                t.2.next_reg,
            )),
            Err(_) => true,
        },
    decreases e, 0int,
{
    reveal_with_fuel(spec_lower_expr, 1);
    match e {
        ExpressionV::Literal { lit } => {
            let (reg, st1) = spec_alloc(st);
            if st1.next_reg < u32::MAX {
                lemma_reg_discipline_push_dest(
                    Seq::empty(),
                    Inst {
                        instruction: Instruction::CON(reg, spec_lit_word(lit)),
                        span: lit.spec_span(),
                    },
                    st.next_reg,
                    st.next_reg,
                );
                assert(Seq::<Inst>::empty().push(
                    Inst {
                        instruction: Instruction::CON(reg, spec_lit_word(lit)),
                        span: lit.spec_span(),
                    },
                ) =~= spec_lower_expr(e, st)->Ok_0.0);
            }
        },
        ExpressionV::Group { expr, span: _ } => {
            lemma_lower_expr_registers(*expr, st);
        },
        ExpressionV::Identifier(_) => {
        },
        ExpressionV::App { app } => {
            lemma_lower_app_registers(app, st);
        },
        ExpressionV::Array { elements, span } => {
            let (reg_index, st1) = spec_alloc(st);
            let (offset, st2) = spec_alloc(st1);
            let c1 = Inst {
                instruction: Instruction::CON(reg_index, spec_mem_word(st2.next_mem_addr)),
                span,
            };
            let c2 = Inst { instruction: Instruction::CON(offset, WORD_SIZE as u32), span };
            if st2.next_reg < u32::MAX {
                lemma_reg_discipline_push_dest(Seq::empty(), c1, st.next_reg, st.next_reg);
                lemma_reg_discipline_push_dest(
                    Seq::empty().push(c1),
                    c2,
                    st.next_reg,
                    st1.next_reg,
                );
                assert(Seq::<Inst>::empty().push(c1).push(c2) =~= seq![c1, c2]);
            }
            lemma_lower_elems_registers(
                elements,
                st2,
                seq![c1, c2],
                Some(offset),
                reg_index,
                offset,
                st.next_reg,
            );
        },
        ExpressionV::Index { variable, index, span } => {
            if st.pointers.contains_key(variable.id) {
                let base = st.pointers[variable.id];
                let (r_base, st1) = spec_alloc(st);
                lemma_lower_expr_registers(*index, st1);
                match spec_lower_expr(*index, st1) {
                    Err(_) => {},
                    Ok((ii, oi, st2)) => match oi {
                        None => {},
                        Some(r_idx_out) => {
                            let (r_word, st3) = spec_alloc(st2);
                            let (r_index, st4) = spec_alloc(st3);
                            let (r_data, st5) = spec_alloc(st4);
                            if st5.next_reg < u32::MAX {
                                let c0 = Inst {
                                    instruction: Instruction::CON(r_base, spec_mem_word(base)),
                                    span,
                                };
                                lemma_reg_discipline_push_dest(
                                    Seq::empty(),
                                    c0,
                                    st.next_reg,
                                    st.next_reg,
                                );
                                assert(Seq::<Inst>::empty().push(c0) =~= seq![c0]);
                                lemma_reg_discipline_concat(
                                    seq![c0],
                                    ii,
                                    st.next_reg,
                                    st1.next_reg,
                                    st2.next_reg,
                                );
                                let c1 = Inst {
                                    instruction: Instruction::CON(r_word, WORD_SIZE as u32),
                                    span: expr_span(*index),
                                };
                                let c2 = Inst {
                                    instruction: Instruction::MUL(r_index, r_idx_out, r_word),
                                    span: expr_span(*index),
                                };
                                let c3 = Inst {
                                    instruction: Instruction::LDR(
                                        r_data,
                                        r_base,
                                        Mode::Offset(r_index),
                                    ),
                                    span,
                                };
                                lemma_reg_discipline_push_dest(
                                    seq![c0] + ii,
                                    c1,
                                    st.next_reg,
                                    st2.next_reg,
                                );
                                lemma_reg_discipline_push_dest(
                                    (seq![c0] + ii).push(c1),
                                    c2,
                                    st.next_reg,
                                    st3.next_reg,
                                );
                                lemma_reg_discipline_push_dest(
                                    (seq![c0] + ii).push(c1).push(c2),
                                    c3,
                                    st.next_reg,
                                    st4.next_reg,
                                );
                                assert((seq![c0] + ii).push(c1).push(c2).push(c3)
                                    =~= seq![c0] + ii + seq![c1, c2, c3]);
                            }
                        },
                    },
                }
            }
        },
    }
}

/// Register discipline of a lowered operator application.
pub proof fn lemma_lower_app_registers(a: ApplicationV, st: GenStateV)
    ensures
        match spec_lower_app(a, st) {
            Ok(t) => st.next_reg <= t.2.next_reg && (t.2.next_reg < u32::MAX ==> reg_discipline(
                t.0,
                st.next_reg,
                t.2.next_reg,
            )),
            Err(_) => true,
        },
    decreases a, 0int,
{
    match a {
        ApplicationV::Unary { op, expr, span } => {
            lemma_lower_expr_registers(*expr, st);
            match spec_lower_expr(*expr, st) {
                Err(_) => {},
                Ok((ii, oi, st1)) => match oi {
                    None => {},
                    Some(rx) => match op {
                        OperatorType::Not => {
                            let (rd, st2) = spec_alloc(st1);
                            if st2.next_reg < u32::MAX {
                                lemma_reg_discipline_push_dest(
                                    ii,
                                    Inst { instruction: Instruction::NOT(rd, rx), span },
                                    st.next_reg,
                                    st1.next_reg,
                                );
                            }
                        },
                        OperatorType::Minus => {
                            let (rz, st2) = spec_alloc(st1);
                            let (rd, st3) = spec_alloc(st2);
                            if st3.next_reg < u32::MAX {
                                lemma_reg_discipline_push_dest(
                                    ii,
                                    Inst { instruction: Instruction::CON(rz, 0), span },
                                    st.next_reg,
                                    st1.next_reg,
                                );
                                lemma_reg_discipline_push_dest(
                                    ii.push(Inst { instruction: Instruction::CON(rz, 0), span }),
                                    Inst { instruction: Instruction::SUB(rd, rz, rx), span },
                                    st.next_reg,
                                    st2.next_reg,
                                );
                            }
                        },
                        _ => {},
                    },
                },
            }
        },
        ApplicationV::Binary { op, left, right, span } => {
            lemma_lower_expr_registers(*left, st);
            match spec_lower_expr(*left, st) {
                Err(_) => {},
                Ok((il, ol, st1)) => {
                    lemma_lower_expr_registers(*right, st1);
                    match spec_lower_expr(*right, st1) {
                        Err(_) => {},
                        Ok((ir, orr, st2)) => match (ol, orr) {
                            (Some(rx), Some(ry)) => {
                                if op is Not {
                                } else if spec_is_cmp(op) {
                                    if st2.next_reg < u32::MAX {
                                        lemma_reg_discipline_concat(
                                            il,
                                            ir,
                                            st.next_reg,
                                            st1.next_reg,
                                            st2.next_reg,
                                        );
                                        lemma_reg_discipline_push_silent(
                                            il + ir,
                                            Inst {
                                                instruction: Instruction::CMP(
                                                    rx,
                                                    ry,
                                                    Some(spec_cmp_flag(op)),
                                                ),
                                                span,
                                            },
                                            st.next_reg,
                                            st2.next_reg,
                                        );
                                    }
                                } else {
                                    let (rd, st3) = spec_alloc(st2);
                                    if st3.next_reg < u32::MAX {
                                        lemma_reg_discipline_concat(
                                            il,
                                            ir,
                                            st.next_reg,
                                            st1.next_reg,
                                            st2.next_reg,
                                        );
                                        let inst = match op {
                                            OperatorType::Plus => Instruction::ADD(rd, rx, ry),
                                            OperatorType::Minus => Instruction::SUB(rd, rx, ry),
                                            OperatorType::Multiply => Instruction::MUL(
                                                rd,
                                                rx,
                                                ry,
                                            ),
                                            _ => Instruction::DIV(rd, rx, ry),
                                        };
                                        lemma_reg_discipline_push_dest(
                                            il + ir,
                                            Inst { instruction: inst, span },
                                            st.next_reg,
                                            st2.next_reg,
                                        );
                                    }
                                }
                            },
                            _ => {},
                        },
                    }
                },
            }
        },
    }
}

/// Register discipline of lowered array elements.
pub proof fn lemma_lower_elems_registers(
    elems: Seq<ExpressionV>,
    st: GenStateV,
    acc: Seq<Inst>,
    acc_out: Option<Reg>,
    reg_index: Reg,
    offset: Reg,
    lo: u32,
)
    requires
        lo <= st.next_reg,
        st.next_reg < u32::MAX ==> reg_discipline(acc, lo, st.next_reg),
    ensures
        match spec_lower_array_elems(elems, st, acc, acc_out, reg_index, offset) {
            Ok(t) => st.next_reg <= t.2.next_reg && (t.2.next_reg < u32::MAX ==> reg_discipline(
                t.0,
                lo,
                t.2.next_reg,
            )),
            Err(_) => true,
        },
    decreases elems, elems.len(),
{
    if elems.len() > 0 {
        assert(decreases_to!(elems => elems[0]));
        assert(elems.drop_first() =~= elems.subrange(1, elems.len() as int));
        assert(decreases_to!(elems => elems.drop_first()));
        lemma_lower_expr_registers(elems[0], st);
        match spec_lower_expr(elems[0], st) {
            Err(_) => {},
            Ok((ie, oe, st1)) => match or_reg(oe, acc_out) {
                None => {},
                Some(src) => {
                    let str_inst = Inst {
                        instruction: Instruction::STR(src, reg_index, Mode::PostOffset(offset)),
                        span: expr_span(elems[0]),
                    };
                    if st1.next_reg < u32::MAX {
                        lemma_reg_discipline_concat(acc, ie, lo, st.next_reg, st1.next_reg);
                        lemma_reg_discipline_push_silent(
                            acc + ie,
                            str_inst,
                            lo,
                            st1.next_reg,
                        );
                    }
                    lemma_lower_elems_registers(
                        elems.drop_first(),
                        spec_alloc_mem(st1).1,
                        (acc + ie).push(str_inst),
                        or_reg(oe, acc_out),
                        reg_index,
                        offset,
                        lo,
                    );
                },
            },
        }
    }
}


/// Silent instructions laid end to end keep a range disciplined.
proof fn lemma_reg_discipline_silent_seq(insts: Seq<Inst>, lo: u32)
    requires
        forall|k: int|
            0 <= k < insts.len() ==> (#[trigger] insts[k].instruction.spec_output_register())
                is None,
    ensures
        reg_discipline(insts, lo, lo),
{
}

/// Law: register numbering is strictly monotonic across whole statements.
/// Lowering a statement never lowers the register counter, and — while the
/// counter stays below its ceiling — the statement's instructions write only
/// registers between the counter before and after, in strictly increasing
/// order. Labels, checks, branches, moves, stores and yields write no fresh
/// register, so all allocation comes from the expressions inside.
pub proof fn lemma_stmt_shape_registers(s: StatementV, st: GenStateV, insts: Seq<Inst>)
    requires
        stmt_shape(s, st, insts),
    ensures
        spec_stmt_effect(s, st) is Ok,
        ({
            let st2 = spec_stmt_effect(s, st)->Ok_0.0;
            st.next_reg <= st2.next_reg && (st2.next_reg < u32::MAX ==> reg_discipline(
                insts,
                st.next_reg,
                st2.next_reg,
            ))
        }),
    decreases s, 1int,
{
    match s {
        StatementV::Expr(e) => {
            lemma_lower_expr_registers(e, st);
        },
        StatementV::Yield(e) => {
            lemma_lower_expr_registers(e, st);
            match spec_lower_expr(e, st) {
                Err(_) => {},
                Ok((ie, oe, st1)) => match oe {
                    Some(r) => {
                        if st1.next_reg < u32::MAX {
                            lemma_reg_discipline_push_silent(
                                ie,
                                Inst { instruction: Instruction::YLD(r), span: expr_span(e) },
                                st.next_reg,
                                st1.next_reg,
                            );
                        }
                    },
                    None => {},
                },
            }
        },
        StatementV::Let(l) => {
            if l.value is Array {
                let st0 = GenStateV {
                    pointers: st.pointers.insert(l.variable, st.next_mem_addr),
                    ..st
                };
                lemma_lower_expr_registers(l.value, st0);
            } else {
                lemma_lower_expr_registers(l.value, st);
            }
        },
        StatementV::Mutate(m) => {
            lemma_lower_expr_registers(m.value, st);
            match spec_lower_expr(m.value, st) {
                Err(_) => {},
                Ok((iv, ov, st1)) => match ov {
                    Some(r) => {
                        if st1.variables.contains_key(m.variable) && st1.next_reg < u32::MAX {
                            lemma_reg_discipline_push_silent(
                                iv,
                                Inst {
                                    instruction: Instruction::MOV(st1.variables[m.variable], r),
                                    span: m.span,
                                },
                                st.next_reg,
                                st1.next_reg,
                            );
                        }
                    },
                    None => {},
                },
            }
        },
        StatementV::If(i) => {
            lemma_lower_expr_registers(i.condition, st);
            match spec_lower_expr(i.condition, st) {
                Err(_) => {},
                Ok((ci, _, st1)) => {
                    assert(decreases_to!(s => i.iff));
                    let (u, la, lb, ea, eb, body) = choose|
                        u: Seq<char>,
                        la: String,
                        lb: String,
                        ea: String,
                        eb: String,
                        body: Seq<Inst>,
                    |
                        {
                            &&& u.len() == 36
                            &&& la@ == u + "-if"@
                            &&& lb@ == la@
                            &&& ea@ == u + "-end"@
                            &&& eb@ == ea@
                            &&& insts == ci + seq![
                                Inst {
                                    instruction: Instruction::CHK(spec_if_check(ci)),
                                    span: expr_span(i.condition),
                                },
                                Inst { instruction: Instruction::BRA(la), span: i.span },
                                Inst { instruction: Instruction::BRA(ea), span: i.span },
                                Inst { instruction: Instruction::LBL(lb), span: i.span },
                            ] + body + seq![
                                Inst { instruction: Instruction::LBL(eb), span: i.span },
                            ]
                            &&& stmts_shape(i.iff, st1, body)
                        };
                    lemma_stmts_shape_registers(i.iff, st1, body);
                    let st2 = spec_stmts_effect(i.iff, st1, None)->Ok_0.0;
                    lemma_stmts_effect_out_any(
                        i.iff,
                        st1,
                        None,
                        or_reg(spec_lower_expr(i.condition, st)->Ok_0.1, None),
                    );
                    if st2.next_reg < u32::MAX {
                        let mid = seq![
                            Inst {
                                instruction: Instruction::CHK(spec_if_check(ci)),
                                span: expr_span(i.condition),
                            },
                            Inst { instruction: Instruction::BRA(la), span: i.span },
                            Inst { instruction: Instruction::BRA(ea), span: i.span },
                            Inst { instruction: Instruction::LBL(lb), span: i.span },
                        ];
                        lemma_reg_discipline_silent_seq(mid, st1.next_reg);
                        lemma_reg_discipline_concat(ci, mid, st.next_reg, st1.next_reg, st1.next_reg);
                        lemma_reg_discipline_concat(
                            ci + mid,
                            body,
                            st.next_reg,
                            st1.next_reg,
                            st2.next_reg,
                        );
                        lemma_reg_discipline_push_silent(
                            (ci + mid) + body,
                            Inst { instruction: Instruction::LBL(eb), span: i.span },
                            st.next_reg,
                            st2.next_reg,
                        );
                        assert(insts =~= ((ci + mid) + body).push(
                            Inst { instruction: Instruction::LBL(eb), span: i.span },
                        ));
                    }
                },
            }
        },
        StatementV::While(w) => {
            lemma_lower_expr_registers(w.condition, st);
            match spec_lower_expr(w.condition, st) {
                Err(_) => {},
                Ok((ci, _, st1)) => {
                    assert(decreases_to!(s => w.body));
                    let (u, ca, cb, ba, bb, body) = choose|
                        u: Seq<char>,
                        ca: String,
                        cb: String,
                        ba: String,
                        bb: String,
                        body: Seq<Inst>,
                    |
                        {
                            &&& u.len() == 36
                            &&& ca@ == u + "-check-condition"@
                            &&& cb@ == ca@
                            &&& ba@ == u + "-break"@
                            &&& bb@ == ba@
                            &&& insts == seq![
                                Inst {
                                    instruction: Instruction::LBL(ca),
                                    span: expr_span(w.condition),
                                },
                            ] + ci + seq![
                                Inst {
                                    instruction: Instruction::CHK(spec_while_check(ci)),
                                    span: expr_span(w.condition),
                                },
                                Inst {
                                    instruction: Instruction::BRA(ba),
                                    span: expr_span(w.condition),
                                },
                            ] + body + seq![
                                Inst {
                                    instruction: Instruction::BRA(cb),
                                    span: expr_span(w.condition),
                                },
                                Inst {
                                    instruction: Instruction::LBL(bb),
                                    span: expr_span(w.condition),
                                },
                            ]
                            &&& stmts_shape(w.body, st1, body)
                        };
                    lemma_stmts_shape_registers(w.body, st1, body);
                    let st2 = spec_stmts_effect(w.body, st1, None)->Ok_0.0;
                    lemma_stmts_effect_out_any(
                        w.body,
                        st1,
                        None,
                        or_reg(spec_lower_expr(w.condition, st)->Ok_0.1, None),
                    );
                    if st2.next_reg < u32::MAX {
                        let head = seq![
                            Inst {
                                instruction: Instruction::LBL(ca),
                                span: expr_span(w.condition),
                            },
                        ];
                        let mid = seq![
                            Inst {
                                instruction: Instruction::CHK(spec_while_check(ci)),
                                span: expr_span(w.condition),
                            },
                            Inst {
                                instruction: Instruction::BRA(ba),
                                span: expr_span(w.condition),
                            },
                        ];
                        let tail = seq![
                            Inst {
                                instruction: Instruction::BRA(cb),
                                span: expr_span(w.condition),
                            },
                            Inst {
                                instruction: Instruction::LBL(bb),
                                span: expr_span(w.condition),
                            },
                        ];
                        lemma_reg_discipline_silent_seq(head, st.next_reg);
                        lemma_reg_discipline_concat(head, ci, st.next_reg, st.next_reg, st1.next_reg);
                        lemma_reg_discipline_silent_seq(mid, st1.next_reg);
                        lemma_reg_discipline_concat(
                            head + ci,
                            mid,
                            st.next_reg,
                            st1.next_reg,
                            st1.next_reg,
                        );
                        lemma_reg_discipline_concat(
                            (head + ci) + mid,
                            body,
                            st.next_reg,
                            st1.next_reg,
                            st2.next_reg,
                        );
                        lemma_reg_discipline_silent_seq(tail, st2.next_reg);
                        lemma_reg_discipline_concat(
                            ((head + ci) + mid) + body,
                            tail,
                            st.next_reg,
                            st2.next_reg,
                            st2.next_reg,
                        );
                        assert(insts =~= (((head + ci) + mid) + body) + tail);
                    }
                },
            }
        },
    }
}

/// Register discipline across a whole lowered statement list.
pub proof fn lemma_stmts_shape_registers(ss: Seq<StatementV>, st: GenStateV, insts: Seq<Inst>)
    requires
        stmts_shape(ss, st, insts),
    ensures
        spec_stmts_effect(ss, st, None) is Ok,
        ({
            let st2 = spec_stmts_effect(ss, st, None)->Ok_0.0;
            st.next_reg <= st2.next_reg && (st2.next_reg < u32::MAX ==> reg_discipline(
                insts,
                st.next_reg,
                st2.next_reg,
            ))
        }),
    decreases ss, ss.len() + 2,
{
    if ss.len() == 0 {
        assert(reg_discipline(Seq::<Inst>::empty(), st.next_reg, st.next_reg));
    } else {
        assert(decreases_to!(ss => ss[0]));
        assert(ss.drop_first() =~= ss.subrange(1, ss.len() as int));
        assert(decreases_to!(ss => ss.drop_first()));
        match spec_stmt_effect(ss[0], st) {
            Err(_) => {},
            Ok((st1, o1)) => {
                let (i1, rest) = choose|i1: Seq<Inst>, rest: Seq<Inst>|
                    {
                        &&& insts == i1 + rest
                        &&& stmt_shape(ss[0], st, i1)
                        &&& stmts_shape(ss.drop_first(), st1, rest)
                    };
                lemma_stmt_shape_registers(ss[0], st, i1);
                lemma_stmts_shape_registers(ss.drop_first(), st1, rest);
                lemma_stmts_effect_out_any(ss.drop_first(), st1, None, or_reg(o1, None));
                let st2 = spec_stmts_effect(ss.drop_first(), st1, None)->Ok_0.0;
                if st2.next_reg < u32::MAX {
                    lemma_reg_discipline_concat(i1, rest, st.next_reg, st1.next_reg, st2.next_reg);
                }
            },
        }
    }
}


/// Lowering an expression reads the symbol tables but never writes them: on
/// success the state differs from the start only in its register and memory
/// counters.
pub proof fn lemma_lower_expr_preserves_tables(e: ExpressionV, st: GenStateV)
    ensures
        match spec_lower_expr(e, st) {
            Ok(t) => t.2.variables == st.variables && t.2.pointers == st.pointers,
            Err(_) => true,
        },
    decreases e, 0int,
{
    match e {
        ExpressionV::Literal { lit: _ } => {},
        ExpressionV::Group { expr, span: _ } => {
            lemma_lower_expr_preserves_tables(*expr, st);
        },
        ExpressionV::Identifier(_) => {},
        ExpressionV::App { app } => {
            lemma_lower_app_preserves_tables(app, st);
        },
        ExpressionV::Array { elements, span } => {
            let (reg_index, st1) = spec_alloc(st);
            let (offset, st2) = spec_alloc(st1);
            let init = seq![
                Inst {
                    instruction: Instruction::CON(reg_index, spec_mem_word(st2.next_mem_addr)),
                    span,
                },
                Inst { instruction: Instruction::CON(offset, WORD_SIZE as u32), span },
            ];
            assert(decreases_to!(e => elements));
            lemma_lower_elems_preserves_tables(elements, st2, init, Some(offset), reg_index, offset);
        },
        ExpressionV::Index { variable: _, index, span: _ } => {
            let (_, st1) = spec_alloc(st);
            lemma_lower_expr_preserves_tables(*index, st1);
        },
    }
}

/// Lowering an application never writes the symbol tables.
pub proof fn lemma_lower_app_preserves_tables(a: ApplicationV, st: GenStateV)
    ensures
        match spec_lower_app(a, st) {
            Ok(t) => t.2.variables == st.variables && t.2.pointers == st.pointers,
            Err(_) => true,
        },
    decreases a, 0int,
{
    match a {
        ApplicationV::Unary { op: _, expr, span: _ } => {
            lemma_lower_expr_preserves_tables(*expr, st);
        },
        ApplicationV::Binary { op: _, left, right, span: _ } => {
            lemma_lower_expr_preserves_tables(*left, st);
            match spec_lower_expr(*left, st) {
                Err(_) => {},
                Ok((_, _, st1)) => {
                    lemma_lower_expr_preserves_tables(*right, st1);
                },
            }
        },
    }
}

/// Lowering array elements never writes the symbol tables.
pub proof fn lemma_lower_elems_preserves_tables(
    elems: Seq<ExpressionV>,
    st: GenStateV,
    acc: Seq<Inst>,
    acc_out: Option<Reg>,
    reg_index: Reg,
    offset: Reg,
)
    ensures
        match spec_lower_array_elems(elems, st, acc, acc_out, reg_index, offset) {
            Ok(t) => t.2.variables == st.variables && t.2.pointers == st.pointers,
            Err(_) => true,
        },
    decreases elems, elems.len(),
{
    if elems.len() > 0 {
        assert(decreases_to!(elems => elems[0]));
        assert(elems.drop_first() =~= elems.subrange(1, elems.len() as int));
        assert(decreases_to!(elems => elems.drop_first()));
        lemma_lower_expr_preserves_tables(elems[0], st);
        match spec_lower_expr(elems[0], st) {
            Err(_) => {},
            Ok((ie, oe, st1)) => match or_reg(oe, acc_out) {
                None => {},
                Some(src) => {
                    lemma_lower_elems_preserves_tables(
                        elems.drop_first(),
                        spec_alloc_mem(st1).1,
                        (acc + ie).push(
                            Inst {
                                instruction: Instruction::STR(
                                    src,
                                    reg_index,
                                    Mode::PostOffset(offset),
                                ),
                                span: expr_span(elems[0]),
                            },
                        ),
                        or_reg(oe, acc_out),
                        reg_index,
                        offset,
                    );
                },
            },
        }
    }
}

} // verus!
