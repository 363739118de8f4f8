//! Blocks: instruction sub-sequences with a designated output register, the
//! composition unit of the lowering pass.

use vstd::prelude::*;
use crate::air::{Flag, Inst, Instruction, Reg};

verus! {

/// The register written by the last value-producing instruction of the
/// sequence, or none if there is no such instruction.
pub open spec fn last_output_register(s: Seq<Inst>) -> Option<Reg>
    decreases s.len(),
{
    if s.len() == 0 {
        None
    } else {
        match s.last().instruction.spec_output_register() {
            Some(r) => Some(r),
            None => last_output_register(s.drop_last()),
        }
    }
}

/// The flag hint an instruction carries: only a hinted comparison has one.
pub open spec fn inst_hint(i: Inst) -> Option<Flag> {
    match i.instruction {
        Instruction::CMP(_, _, h) => h,
        _ => None,
    }
}

/// The hint of the most recent comparison in the sequence, or none if the
/// sequence holds no hinted comparison.
pub open spec fn latest_flag_hint_of(s: Seq<Inst>) -> Option<Flag>
    decreases s.len(),
{
    if s.len() == 0 {
        None
    } else {
        match inst_hint(s.last()) {
            Some(f) => Some(f),
            None => latest_flag_hint_of(s.drop_last()),
        }
    }
}

/// A block of the program, represented by machine instructions, together with
/// the register holding the value the block hands to whoever composes with
/// it. A block made of instructions alone designates the register written by
/// its last value-producing instruction; lowering an identifier designates an
/// already-allocated register on an empty block instead.
#[derive(Debug, Clone)]
pub struct Block {
    pub instructions: Vec<Inst>,
    pub output_register: Option<Reg>,
}

impl Block {
    /// The block's output register equals the register written by its last
    /// value-producing instruction, or none if it has no such instruction.
    pub open spec fn wf_output(self) -> bool {
        self.output_register == last_output_register(self.instructions@)
    }

    pub fn new(instruction: Inst) -> (r: Block)
        ensures
            r.instructions@ == seq![instruction],
            r.output_register == instruction.instruction.spec_output_register(),
            r.wf_output(),
    {
        let output_register = instruction.output_register();
        let mut instructions = Vec::new();
        instructions.push(instruction);
        proof {
            assert(instructions@.drop_last() =~= Seq::<Inst>::empty());
            assert(instructions@ =~= seq![instruction]);
            assert(last_output_register(Seq::<Inst>::empty()) is None);
            assert(instructions@.last() == instruction);
        }
        Block { instructions, output_register }
    }

    pub fn empty() -> (r: Block)
        ensures
            r.instructions@ == Seq::<Inst>::empty(),
            r.output_register is None,
            r.wf_output(),
    {
        Block { instructions: Vec::new(), output_register: None }
    }

    /// Append one instruction; a value-producing instruction takes over as the
    /// block's output register, any other leaves it alone.
    pub fn append_inst(&mut self, instruction: Inst)
        ensures
            final(self).instructions@ == old(self).instructions@.push(instruction),
            final(self).output_register == (match instruction.instruction.spec_output_register() {
                Some(r) => Some(r),
                None => old(self).output_register,
            }),
            old(self).wf_output() ==> final(self).wf_output(),
    {
        proof {
            lemma_output_register_of_push(self.instructions@, instruction);
        }
        self.output_register = match instruction.output_register() {
            Some(r) => Some(r),
            None => self.output_register,
        };
        self.instructions.push(instruction);
    }

    /// The output register of a bare instruction sequence: that of its last
    /// value-producing instruction.
    fn compute_output(v: &Vec<Inst>) -> (r: Option<Reg>)
        ensures
            r == last_output_register(v@),
    {
        let mut i = v.len();
        proof {
            assert(v@.subrange(0, v@.len() as int) =~= v@);
        }
        while i > 0
            invariant
                i <= v@.len(),
                last_output_register(v@) == last_output_register(v@.subrange(0, i as int)),
            decreases i,
        {
            i = i - 1;
            proof {
                assert(v@.subrange(0, i + 1).last() == v@[i as int]);
                assert(v@.subrange(0, i + 1).drop_last() =~= v@.subrange(0, i as int));
            }
            match v[i].output_register() {
                Some(r) => {
                    return Some(r);
                },
                None => {},
            }
        }
        proof {
            assert(v@.subrange(0, 0) =~= Seq::<Inst>::empty());
        }
        None
    }

    /// Build a block from a bare instruction sequence; the output register is
    /// the one written by the last value-producing instruction, if any.
    pub fn from_instructions(instructions: Vec<Inst>) -> (r: Block)
        ensures
            r.instructions@ == instructions@,
            r.wf_output(),
    {
        proof {
            assert(instructions@.subrange(0, instructions@.len() as int) =~= instructions@);
        }
        let output_register = Block::compute_output(&instructions);
        Block { instructions, output_register }
    }

    pub fn output_register(&self) -> (r: Option<Reg>)
        ensures
            r == self.output_register,
    {
        self.output_register
    }

    /// The output register of a block known to have one.
    pub fn output_register_unchecked(&self) -> (r: Reg)
        requires
            self.output_register is Some,
        ensures
            Some(r) == self.output_register,
    {
        match self.output_register {
            Some(r) => r,
            None => unreached(),
        }
    }

    pub fn set_output_register(&mut self, reg: Option<Reg>)
        ensures
            final(self).instructions@ == old(self).instructions@,
            final(self).output_register == reg,
    {
        self.output_register = reg;
    }

    /// Returns the most recent flag hint if one exists, otherwise `None`.
    pub fn latest_flag_hint(&self) -> (r: Option<Flag>)
        ensures
            r == latest_flag_hint_of(self.instructions@),
    {
        let mut i = self.instructions.len();
        proof {
            assert(self.instructions@.subrange(0, self.instructions@.len() as int)
                =~= self.instructions@);
        }
        while i > 0
            invariant
                i <= self.instructions@.len(),
                latest_flag_hint_of(self.instructions@) == latest_flag_hint_of(
                    self.instructions@.subrange(0, i as int),
                ),
            decreases i,
        {
            i = i - 1;
            proof {
                let ghost idx = i as int;
                assert(self.instructions@.subrange(0, i + 1).last() == self.instructions@[idx]);
                assert(self.instructions@.subrange(0, i + 1).drop_last()
                    =~= self.instructions@.subrange(0, i as int));
            }
            let hint_here = match &self.instructions[i].instruction {
                Instruction::CMP(_, _, Some(f)) => Some(*f),
                _ => None,
            };
            proof {
                assert(hint_here == inst_hint(self.instructions@[i as int]));
            }

            match hint_here {
                Some(f) => {
                    return Some(f);
                },
                None => {},
            }
        }
        proof {
            assert(self.instructions@.subrange(0, 0) =~= Seq::<Inst>::empty());
        }
        None
    }

    /// Append another block's instructions; of the two designated output
    /// registers, the later non-null one is kept.
    pub fn extend(&mut self, other: Block)
        ensures
            final(self).instructions@ == old(self).instructions@ + other.instructions@,
            final(self).output_register == (match other.output_register {
                Some(r) => Some(r),
                None => old(self).output_register,
            }),
            old(self).wf_output() && other.wf_output() ==> final(self).wf_output(),
    {
        proof {
            lemma_output_register_of_concat(self.instructions@, other.instructions@);
        }
        self.output_register = match other.output_register {
            Some(r) => Some(r),
            None => self.output_register,
        };
        let mut tail = other.instructions;
        self.instructions.append(&mut tail);
    }

    pub fn instructions(&self) -> (r: &Vec<Inst>)
        ensures
            r@ == self.instructions@,
    {
        &self.instructions
    }

    /// Take the instructions out of the block.
    pub fn into_instructions(self) -> (r: Vec<Inst>)
        ensures
            r@ == self.instructions@,
    {
        self.instructions
    }
}

/// Appending one instruction moves the designated output register to the
/// appended instruction's destination when it produces a value, and keeps the
/// sequence's old one otherwise.
pub proof fn lemma_output_register_of_push(s: Seq<Inst>, i: Inst)
    ensures
        last_output_register(s.push(i)) == (match i.instruction.spec_output_register() {
            Some(r) => Some(r),
            None => last_output_register(s),
        }),
{
    assert(s.push(i).last() == i);
    assert(s.push(i).drop_last() =~= s);
}

/// Law: composition reads the output register off the back. The register
/// written by the last value-producing instruction of a concatenation is that
/// of the second part where it has one, and that of the first part otherwise;
/// so a block built or extended from instructions always designates the
/// register written by the last value-producing instruction it holds.
pub proof fn lemma_output_register_of_concat(a: Seq<Inst>, b: Seq<Inst>)
    ensures
        last_output_register(a + b) == (match last_output_register(b) {
            Some(r) => Some(r),
            None => last_output_register(a),
        }),
    decreases b.len(),
{
    if b.len() == 0 {
        assert(a + b =~= a);
    } else {
        assert((a + b).last() == b.last());
        assert((a + b).drop_last() =~= a + b.drop_last());
        lemma_output_register_of_concat(a, b.drop_last());
    }
}

/// The most recent flag hint of a concatenation is the second part's where it
/// has one, and the first part's otherwise.
pub proof fn lemma_flag_hint_of_concat(a: Seq<Inst>, b: Seq<Inst>)
    ensures
        latest_flag_hint_of(a + b) == (match latest_flag_hint_of(b) {
            Some(f) => Some(f),
            None => latest_flag_hint_of(a),
        }),
    decreases b.len(),
{
    if b.len() == 0 {
        assert(a + b =~= a);
    } else {
        assert((a + b).last() == b.last());
        assert((a + b).drop_last() =~= a + b.drop_last());
        lemma_flag_hint_of_concat(a, b.drop_last());
    }
}

} // verus!
