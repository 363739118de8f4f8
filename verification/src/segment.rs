//! Segments: a nested composition structure over bare instructions. A
//! segment is either a block of instructions with a source range, or a
//! subprogram of segments; either way it designates an output register, and
//! flattening recovers the instruction sequence in order.

use vstd::prelude::*;
use crate::air::{Flag, Instruction, Reg};
use crate::block::inst_hint;

verus! {

broadcast use vstd::std_specs::vec::group_vec_axioms, vstd::seq::axiom_seq_index_decreases;

/// A segment of the program, represented by bare machine instructions.
#[derive(Debug)]
pub enum Segment {
    SubProgram { segments: Vec<Segment>, output_register: Option<Reg> },
    Block { instructions: Vec<Instruction>, output_register: Option<Reg>, span: (usize, usize) },
}

/// The instructions of a segment, in order.
pub open spec fn seg_insts(s: Segment) -> Seq<Instruction>
    decreases s, 0int,
{
    match s {
        Segment::Block { instructions, output_register: _, span: _ } => instructions@,
        Segment::SubProgram { segments, output_register: _ } => {
            proof {
                assert(decreases_to!(s => segments@));
            }
            segs_insts(segments@)
        },
    }
}

pub open spec fn segs_insts(ss: Seq<Segment>) -> Seq<Instruction>
    decreases ss, ss.len(),
{
    if ss.len() == 0 {
        Seq::empty()
    } else {
        proof {
            assert(decreases_to!(ss => ss[0]));
            assert(ss.drop_first() =~= ss.subrange(1, ss.len() as int));
            assert(decreases_to!(ss => ss.drop_first()));
        }
        seg_insts(ss[0]) + segs_insts(ss.drop_first())
    }
}

/// The instructions of a segment sequence grow at the back in step with the
/// sequence.
pub proof fn lemma_segs_insts_push(ss: Seq<Segment>, x: Segment)
    ensures
        segs_insts(ss.push(x)) == segs_insts(ss) + seg_insts(x),
    decreases ss.len(),
{
    if ss.len() == 0 {
        assert(ss.push(x).drop_first() =~= Seq::<Segment>::empty());
        assert(ss.push(x)[0] == x);
        assert(segs_insts(ss.push(x).drop_first()) =~= Seq::<Instruction>::empty());
        assert(segs_insts(ss.push(x)) =~= segs_insts(ss) + seg_insts(x));
    } else {
        assert(ss.push(x).drop_first() =~= ss.drop_first().push(x));
        assert(ss.push(x)[0] == ss[0]);
        lemma_segs_insts_push(ss.drop_first(), x);
        assert(segs_insts(ss.push(x)) == seg_insts(ss[0]) + segs_insts(ss.drop_first().push(x)));
        assert(segs_insts(ss) == seg_insts(ss[0]) + segs_insts(ss.drop_first()));
        assert(segs_insts(ss.push(x)) =~= segs_insts(ss) + seg_insts(x));
    }
}

/// Replacing the last segment of a sequence appends that segment's extra
/// instructions.
proof fn lemma_segs_insts_update_last(ss: Seq<Segment>, x: Segment)
    requires
        ss.len() > 0,
    ensures
        segs_insts(ss.drop_last().push(x)) == segs_insts(ss.drop_last()) + seg_insts(x),
{
    lemma_segs_insts_push(ss.drop_last(), x);
}

impl Segment {
    /// The designated output register of the segment.
    pub open spec fn spec_output_register(&self) -> Option<Reg> {
        match self {
            Segment::Block { instructions: _, output_register, span: _ } => *output_register,
            Segment::SubProgram { segments: _, output_register } => *output_register,
        }
    }

    /// An empty block over the zero source range, designating nothing.
    pub fn empty_block() -> (r: Segment)
        ensures
            seg_insts(r) == Seq::<Instruction>::empty(),
            r.spec_output_register() is None,
            r matches Segment::Block { instructions, output_register, span } && instructions@
                == Seq::<Instruction>::empty() && span == (0usize, 0usize),
    {
        Segment::Block { instructions: Vec::new(), output_register: None, span: (0, 0) }
    }

    /// A one-instruction block over the instruction's source range.
    pub fn block_from_inst(instruction: Instruction, span: (usize, usize)) -> (r: Segment)
        ensures
            seg_insts(r) == seq![instruction],
            r.spec_output_register() == instruction.spec_output_register(),
            r matches Segment::Block { instructions: _, output_register: _, span: sp } && sp
                == span,
    {
        let output_register = instruction.output_register();
        let mut instructions = Vec::new();
        instructions.push(instruction);
        proof {
            assert(instructions@ =~= seq![instruction]);
        }
        Segment::Block { instructions, output_register, span }
    }

    /// A subprogram holding one one-instruction block.
    pub fn subprogram_from_inst(instruction: Instruction, span: (usize, usize)) -> (r: Segment)
        ensures
            seg_insts(r) == seq![instruction],
            r.spec_output_register() == instruction.spec_output_register(),
            r is SubProgram,
    {
        let output_register = instruction.output_register();
        let block = Segment::block_from_inst(instruction, span);
        let mut segments = Vec::new();
        segments.push(block);
        proof {
            assert(segments@.drop_first() =~= Seq::<Segment>::empty());
            assert(segments@[0] == block);
            assert(segs_insts(segments@.drop_first()) =~= Seq::<Instruction>::empty());
            assert(segs_insts(segments@) =~= seq![instruction]);
        }
        Segment::SubProgram { segments, output_register }
    }

    /// A subprogram holding one segment.
    pub fn subprogram_from_segment(segment: Segment) -> (r: Segment)
        ensures
            seg_insts(r) == seg_insts(segment),
            r.spec_output_register() == segment.spec_output_register(),
            r is SubProgram,
    {
        let output_register = segment.output_register();
        let ghost seg = segment;
        let mut segments = Vec::new();
        segments.push(segment);
        proof {
            assert(segments@.drop_first() =~= Seq::<Segment>::empty());
            assert(segments@[0] == seg);
            assert(segs_insts(segments@.drop_first()) =~= Seq::<Instruction>::empty());
            assert(segs_insts(segments@) =~= seg_insts(seg));
        }
        Segment::SubProgram { segments, output_register }
    }

    pub fn output_register(&self) -> (r: Option<Reg>)
        ensures
            r == self.spec_output_register(),
    {
        match self {
            Segment::Block { instructions: _, output_register, span: _ } => *output_register,
            Segment::SubProgram { segments: _, output_register } => *output_register,
        }
    }

    /// Set the designated output register.
    pub fn set_output_register(&mut self, reg: Reg)
        ensures
            seg_insts(*final(self)) == seg_insts(*old(self)),
            final(self).spec_output_register() == Some(reg),
            (*old(self)) is Block <==> (*final(self)) is Block,
            final(self).spec_span() == old(self).spec_span(),
    {
        match self {
            Segment::Block { instructions: _, output_register, span: _ } => {
                *output_register = Some(reg);
            },
            Segment::SubProgram { segments: _, output_register } => {
                *output_register = Some(reg);
            },
        }
    }

    /// The source range of a segment: a block tracks one, a subprogram does
    /// not.
    pub open spec fn spec_span(&self) -> Option<(usize, usize)> {
        match self {
            Segment::Block { instructions: _, output_register: _, span } => Some(*span),
            Segment::SubProgram { .. } => None,
        }
    }

    pub fn span(&self) -> (r: Option<(usize, usize)>)
        ensures
            r == self.spec_span(),
    {
        match self {
            Segment::Block { instructions: _, output_register: _, span } => Some(*span),
            Segment::SubProgram { .. } => None,
        }
    }

    /// Get the span of a block segment.
    pub fn span_unchecked(&self) -> (r: (usize, usize))
        requires
            self is Block,
        ensures
            Some(r) == self.spec_span(),
    {
        match self {
            Segment::Block { instructions: _, output_register: _, span } => *span,
            Segment::SubProgram { .. } => unreached(),
        }
    }

    /// Set the span of the segment. Subprograms do not keep track of their
    /// span, so this only affects blocks.
    pub fn set_span(&mut self, new_span: (usize, usize))
        ensures
            seg_insts(*final(self)) == seg_insts(*old(self)),
            final(self).spec_output_register() == old(self).spec_output_register(),
            (*old(self)) is Block ==> final(self).spec_span() == Some(new_span),
            (*old(self)) is SubProgram ==> *final(self) == *old(self),
    {
        match self {
            Segment::Block { instructions: _, output_register: _, span } => {
                *span = new_span;
            },
            _ => {},
        }
    }

    /// Append one instruction at the very end of the segment: at the back of
    /// a block (whose range then reaches the instruction's end), or inside
    /// the last segment of a subprogram (a block is opened for it when the
    /// subprogram is empty). An instruction that writes a register takes over
    /// as the designated output register.
    pub fn append_inst(&mut self, instruction: Instruction, inst_span: (usize, usize))
        ensures
            seg_insts(*final(self)) == seg_insts(*old(self)).push(instruction),
            final(self).spec_output_register() == (match instruction.spec_output_register() {
                Some(r) => Some(r),
                None => old(self).spec_output_register(),
            }),
            (*old(self)) is Block <==> (*final(self)) is Block,
            (*old(self)) is Block ==> final(self).spec_span() == Some(
                (old(self).spec_span()->Some_0.0, inst_span.1),
            ),
        decreases *self,
    {
        let ghost self0 = *self;
        match self {
            Segment::Block { instructions, output_register, span } => {
                let ghost before = instructions@;
                match instruction.output_register() {
                    None => (),
                    Some(reg) => {
                        *output_register = Some(reg);
                    },
                }
                instructions.push(instruction);
                *span = (span.0, inst_span.1);
            },
            Segment::SubProgram { segments, output_register } => {
                match instruction.output_register() {
                    None => (),
                    Some(reg) => {
                        *output_register = Some(reg);
                    },
                }
                if segments.len() == 0 {
                    segments.push(Segment::block_from_inst(instruction, inst_span));
                    proof {
                        assert(segments@.drop_first() =~= Seq::<Segment>::empty());
                        assert(segs_insts(segments@.drop_first()) =~= Seq::<Instruction>::empty());
                        assert(segs_insts(segments@) =~= seq![instruction]);
                        assert(segs_insts(Seq::<Segment>::empty()) =~= Seq::<Instruction>::empty());
                        assert(segs_insts(Seq::<Segment>::empty()).push(instruction)
                            =~= seq![instruction]);
                    }
                } else {
                    let ghost segs0 = segments@;
                    let n = segments.len();
                    proof {
                        assert(decreases_to!(self0 => self0->SubProgram_segments));
                        assert(self0->SubProgram_segments@ == segs0);
                        assert(decreases_to!(self0->SubProgram_segments => segs0[n - 1]));
                    }
                    let mut last = match segments.pop() {
                        Some(sg) => sg,
                        None => unreached(),
                    };
                    last.append_inst(instruction, inst_span);
                    segments.push(last);
                    proof {
                        assert(segs0.drop_last().push(segs0.last()) =~= segs0);
                        lemma_segs_insts_push(segs0.drop_last(), segs0.last());
                        lemma_segs_insts_update_last(segs0, last);
                        assert(segments@ =~= segs0.drop_last().push(last));
                        assert(segs_insts(segments@) =~= segs_insts(segs0).push(instruction));
                    }
                }
            },
        }
    }

    /// Append a segment to the end of the subprogram. If called on a block,
    /// the block is first wrapped in a subprogram, and the segment appended
    /// to the subprogram.
    pub fn append_segment(&mut self, segment: Segment)
        ensures
            seg_insts(*final(self)) == seg_insts(*old(self)) + seg_insts(segment),
            final(self).spec_output_register() == (match segment.spec_output_register() {
                Some(r) => Some(r),
                None => old(self).spec_output_register(),
            }),
            (*final(self)) is SubProgram,
    {
        let is_sub = match self {
            Segment::SubProgram { .. } => true,
            _ => false,
        };
        if !is_sub {
            let mut tmp = Segment::empty_block();
            std::mem::swap(self, &mut tmp);
            let wrapped = Segment::subprogram_from_segment(tmp);
            *self = wrapped;
        }
        match self {
            Segment::SubProgram { segments, output_register } => {
                *output_register = match segment.output_register() {
                    Some(r) => Some(r),
                    None => *output_register,
                };
                let ghost segs0 = segments@;
                let ghost seg = segment;
                segments.push(segment);
                proof {
                    lemma_segs_insts_push(segs0, seg);
                }
            },
            Segment::Block { .. } => {
                proof {
                    assert(false);
                }
            },
        }
    }

    /// Returns the most recent flag hint if one exists, otherwise `None`.
    pub fn latest_flag_hint(&self) -> (r: Option<Flag>)
        ensures
            r == crate::block::latest_flag_hint_of(
                Seq::new(seg_insts(*self).len(), |i: int| crate::air::Inst {
                    instruction: seg_insts(*self)[i],
                    span: crate::span::Span { id: 0u64, span: (0usize, 0usize) },
                }),
            ),
    {
        let insts = self.flatten();
        let ghost tagged = Seq::new(seg_insts(*self).len(), |i: int| crate::air::Inst {
            instruction: seg_insts(*self)[i],
            span: crate::span::Span { id: 0u64, span: (0usize, 0usize) },
        });
        let mut i = insts.len();
        proof {
            assert(tagged.subrange(0, tagged.len() as int) =~= tagged);
        }
        while i > 0
            invariant
                i <= insts@.len(),
                insts@ == seg_insts(*self),
                tagged == Seq::new(seg_insts(*self).len(), |k: int| crate::air::Inst {
                    instruction: seg_insts(*self)[k],
                    span: crate::span::Span { id: 0u64, span: (0usize, 0usize) },
                }),
                crate::block::latest_flag_hint_of(tagged) == crate::block::latest_flag_hint_of(
                    tagged.subrange(0, i as int),
                ),
            decreases i,
        {
            i = i - 1;
            proof {
                assert(tagged.subrange(0, i + 1).last() == tagged[i as int]);
                assert(tagged.subrange(0, i + 1).drop_last() =~= tagged.subrange(0, i as int));
            }
            let hint_here = match &insts[i] {
                Instruction::CMP(_, _, Some(f)) => Some(*f),
                _ => None,
            };
            proof {
                assert(hint_here == inst_hint(tagged[i as int]));
            }
            match hint_here {
                Some(f) => {
                    return Some(f);
                },
                None => {},
            }
        }
        proof {
            assert(tagged.subrange(0, 0) =~= Seq::<crate::air::Inst>::empty());
        }
        None
    }

    /// Flatten the entire segment structure, returning the program's
    /// instructions in order.
    pub fn flatten(&self) -> (r: Vec<Instruction>)
        ensures
            r@ == seg_insts(*self),
        decreases *self,
    {
        match self {
            Segment::Block { instructions, output_register: _, span: _ } => {
                let mut v = Vec::new();
                let mut k: usize = 0;
                while k < instructions.len()
                    invariant
                        k <= instructions@.len(),
                        v@ == instructions@.subrange(0, k as int),
                    decreases instructions@.len() - k,
                {
                    v.push(instructions[k].clone());
                    proof {
                        assert(v@ =~= instructions@.subrange(0, k + 1));
                    }
                    k = k + 1;
                }
                proof {
                    assert(instructions@.subrange(0, instructions@.len() as int)
                        =~= instructions@);
                }
                v
            },
            Segment::SubProgram { segments, output_register: _ } => {
                let ghost self0 = *self;
                let mut v: Vec<Instruction> = Vec::new();
                let mut k: usize = 0;
                proof {
                    assert(segs_insts(segments@.subrange(0, 0)) =~= Seq::<Instruction>::empty());
                    assert(v@ =~= segs_insts(segments@.subrange(0, 0)));
                }
                while k < segments.len()
                    invariant
                        k <= segments@.len(),
                        self0 == *self,
                        self0 is SubProgram,
                        segments@ == self0->SubProgram_segments@,
                        v@ == segs_insts(segments@.subrange(0, k as int)),
                    decreases segments@.len() - k,
                {
                    proof {
                        assert(decreases_to!(self0 => self0->SubProgram_segments));
                        assert(decreases_to!(self0->SubProgram_segments => segments@[k as int]));
                    }
                    let mut part = segments[k].flatten();
                    let ghost v0 = v@;
                    v.append(&mut part);
                    proof {
                        assert(segments@.subrange(0, k + 1).drop_last() =~= segments@.subrange(
                            0,
                            k as int,
                        ));
                        assert(segments@.subrange(0, k + 1).last() == segments@[k as int]);
                        lemma_segs_insts_push(
                            segments@.subrange(0, k as int),
                            segments@[k as int],
                        );
                        assert(segments@.subrange(0, k as int).push(segments@[k as int])
                            =~= segments@.subrange(0, k + 1));
                        assert(v@ =~= segs_insts(segments@.subrange(0, k + 1)));
                    }
                    k = k + 1;
                }
                proof {
                    assert(segments@.subrange(0, segments@.len() as int) =~= segments@);
                }
                v
            },
        }
    }
}

} // verus!
