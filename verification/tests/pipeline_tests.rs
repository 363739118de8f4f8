use lead::air::{Flag, Inst, Instruction, Mode, Reg};
use lead::block::Block;
use lead::error::LangError;
use lead::pipeline::{Pipeline, PipelineFailure, RunArgs};
use lead::segment::Segment;
use lead::span::{Span, SpanFactory};
use lead::text::{dec_string, flag_text, hex_string, inst_text, insts_text, token_text};
use lead::token::TokenType;
use lead::vm::{Machine, Message, VMFlags};

const FUEL: u64 = 1_000_000;

fn build_instructions(src: &str) -> Result<Vec<Inst>, PipelineFailure> {
    let mut factory = SpanFactory::new();
    Pipeline::Text(src.to_owned(), None)
        .lex(&mut factory)?
        .parse(&mut factory)?
        .build()?
        .into_instructions()
}

fn run_source(src: &str) -> Vec<u32> {
    let instructions: Vec<Instruction> = build_instructions(src)
        .unwrap()
        .into_iter()
        .map(|inst| inst.instruction())
        .collect();
    let mut vm = Machine::new(instructions, VMFlags::none());
    vm.run(FUEL).expect("program should finish within its fuel").unwrap();
    let mut out = Vec::new();
    for msg in vm.messages() {
        if let Message::Yield(v) = msg {
            out.push(*v);
        }
    }
    out
}

fn build_err(src: &str) -> LangError {
    match build_instructions(src) {
        Err(PipelineFailure::Lang(e)) => e,
        other => panic!("expected a language error, got {:?}", other),
    }
}

#[test]
fn yields_a_constant() {
    assert_eq!(run_source("yield 5;"), vec![5]);
}

#[test]
fn counts_up_through_a_loop() {
    assert_eq!(
        run_source("let r := 1; while r < 5 { yield r; r := r + 1; } yield 64;"),
        vec![1, 2, 3, 4, 64]
    );
}

#[test]
fn reads_an_array_element() {
    assert_eq!(
        run_source("let x := [1, 2, 3, 4, 32 + 12]; let y := x[2]; yield y;"),
        vec![3]
    );
}

#[test]
fn skips_an_if_whose_condition_fails() {
    assert_eq!(
        run_source("let r := 5; if r > 12 { yield 1; } yield 48879;"),
        vec![0xbeef]
    );
}

#[test]
fn enters_an_if_whose_condition_holds() {
    assert_eq!(run_source("let r := 50; if r > 12 { yield 1; } yield 2;"), vec![1, 2]);
}

#[test]
fn arithmetic_and_grouping() {
    assert_eq!(run_source("yield (2 * 3) + 1;"), vec![7]);
    // without parentheses the grammar associates to the right
    assert_eq!(run_source("yield 2 * 3 + 1;"), vec![8]);
    assert_eq!(run_source("yield 10 / 2;"), vec![5]);
    assert_eq!(run_source("yield 7 - 3;"), vec![4]);
}

#[test]
fn unary_negation_wraps() {
    assert_eq!(run_source("yield -1;"), vec![u32::MAX]);
    assert_eq!(run_source("yield !0;"), vec![u32::MAX]);
}

#[test]
fn mutation_overwrites_a_variable() {
    assert_eq!(run_source("let a := 1; a := a + 41; yield a;"), vec![42]);
}

#[test]
fn uninitialised_variable_is_a_lowering_error() {
    assert!(matches!(
        build_err("yield nope;"),
        LangError::UninitialisedVariable { .. }
    ));
}

#[test]
fn uninitialised_pointer_is_a_lowering_error() {
    assert!(matches!(
        build_err("let i := 0; yield nope[i];"),
        LangError::UninitialisedPointer { .. }
    ));
}

#[test]
fn stage_order_is_enforced() {
    let mut factory = SpanFactory::new();
    let built = Pipeline::Text("yield 1;".to_owned(), None)
        .lex(&mut factory)
        .unwrap()
        .parse(&mut factory)
        .unwrap()
        .build()
        .unwrap();
    match built.lex(&mut factory) {
        Err(PipelineFailure::Stage(e)) => {
            assert!(matches!(e, lead::pipeline::PipelineError::InvalidLex(_)))
        }
        other => panic!("expected a stage mistake, got {:?}", other),
    }
}

#[test]
fn run_args_set_machine_flags() {
    let args = RunArgs {
        file: None,
        stdin: false,
        memory_size: 64,
        quiet: true,
        verbose: false,
        very_verbose: false,
        log_path: None,
    };
    let flags = args.vm_flags();
    assert_eq!(flags.memory_size, 64);
    assert_eq!(flags.verbosity, 0);
}

#[test]
fn registers_are_allocated_in_increasing_order() {
    let insts = build_instructions("yield 1 + 2; yield 3;").unwrap();
    let mut last: Option<u32> = None;
    for inst in &insts {
        if let Some(Reg(d)) = inst.instruction.output_register() {
            if let Some(prev) = last {
                assert!(d > prev, "destination registers must strictly increase");
            }
            last = Some(d);
        }
    }
    assert_eq!(last, Some(3));
}

#[test]
fn comparison_records_its_hint() {
    let insts = build_instructions("yield 1 < 2;").unwrap();
    assert!(insts
        .iter()
        .any(|i| matches!(i.instruction, Instruction::CMP(_, _, Some(Flag::Lt)))));
}

#[test]
fn while_checks_the_negated_hint() {
    let insts = build_instructions("let r := 1; while r < 5 { r := r + 1; }").unwrap();
    assert!(insts
        .iter()
        .any(|i| matches!(i.instruction, Instruction::CHK(Flag::Ge))));
}

#[test]
fn while_without_a_comparison_never_enters() {
    let insts = build_instructions("let a := 1; while true { a := 2; } yield a;").unwrap();
    assert!(insts
        .iter()
        .any(|i| matches!(i.instruction, Instruction::CHK(Flag::Al))));
    // the check of always is taken at once, so the body never runs
    assert_eq!(
        run_source("let a := 1; while true { a := 2; } yield a;"),
        vec![1]
    );
}

#[test]
fn arrays_occupy_one_word_per_element() {
    // two arrays bound in sequence do not overlap in memory
    assert_eq!(
        run_source("let x := [1, 2, 3]; let y := [7, 8]; yield x[1]; yield y[0]; yield x[2];"),
        vec![2, 7, 3]
    );
}

#[test]
fn if_without_a_comparison_checks_never() {
    let insts = build_instructions("if true { yield 1; }").unwrap();
    assert!(insts
        .iter()
        .any(|i| matches!(i.instruction, Instruction::CHK(Flag::Nv))));
    // and the body never runs
    assert_eq!(run_source("if true { yield 1; } yield 2;"), vec![2]);
}

#[test]
fn flag_negation_is_an_involution_on_comparisons() {
    for f in [Flag::Eq, Flag::Ne, Flag::Lt, Flag::Le, Flag::Gt, Flag::Ge, Flag::Al, Flag::Nv] {
        assert_eq!(f.negate().negate(), f);
    }
    assert_eq!(Flag::Lt.negate(), Flag::Ge);
    assert_eq!(Flag::Al.negate(), Flag::Nv);
}

#[test]
fn spans_join_by_multiplying_identifiers() {
    let mut f = SpanFactory::new();
    let a = f.fresh(0, 2);
    let b = f.fresh(1, 5);
    assert_eq!(a.id, 2);
    assert_eq!(b.id, 3);
    let joined = Span::superspan(a, b);
    assert_eq!(joined.id, 6);
    assert_eq!(joined.span, (0, 5));
    let ids = joined.composing_ids();
    assert_eq!(ids, vec![2, 3]);
}

#[test]
fn provenance_of_an_unfactorable_identifier_is_empty() {
    // identifiers this large would overflow the factorisation's trial
    // division, so they carry no provenance
    let huge = Span::with_id((0, 1), u64::MAX);
    assert_eq!(huge.composing_ids(), Vec::<u64>::new());
    let one = Span::with_id((0, 1), 1);
    assert_eq!(one.composing_ids(), Vec::<u64>::new());
}

#[test]
fn span_is_subset_of_self() {
    let mut f = SpanFactory::new();
    let span = f.fresh(0, 5);
    assert!(span.is_superset(&span))
}

#[test]
fn span_is_not_disjoint_with_self() {
    let mut f = SpanFactory::new();
    let span = f.fresh(0, 5);
    assert!(!span.is_disjoint(&span))
}

#[test]
fn span_span_is_subset_of_self() {
    let span = Span::with_id((0, 5), 11);
    assert!(span.is_superset(&span))
}

#[test]
fn span_span_is_not_disjoint_with_self() {
    let span = Span::with_id((0, 5), 11);
    assert!(!span.is_disjoint(&span))
}

#[test]
fn block_designates_the_last_value_producing_register() {
    let mut f = SpanFactory::new();
    let sp = f.fresh(0, 1);
    let block = Block::from_instructions(vec![
        Inst::new(Instruction::CON(Reg(0), 1), sp),
        Inst::new(Instruction::CON(Reg(1), 2), sp),
        Inst::new(Instruction::CMP(Reg(0), Reg(1), Some(Flag::Lt)), sp),
    ]);
    assert_eq!(block.output_register(), Some(Reg(1)));
    assert_eq!(block.latest_flag_hint(), Some(Flag::Lt));
    let empty = Block::from_instructions(vec![Inst::new(
        Instruction::YLD(Reg(0)),
        sp,
    )]);
    assert_eq!(empty.output_register(), None);
}

#[test]
fn segments_flatten_in_order() {
    let mut seg = Segment::subprogram_from_inst(Instruction::CON(Reg(0), 1), (0, 1));
    seg.append_inst(Instruction::CON(Reg(1), 2), (1, 2));
    seg.append_segment(Segment::block_from_inst(Instruction::YLD(Reg(1)), (2, 3)));
    let flat = seg.flatten();
    assert_eq!(flat.len(), 3);
    assert!(matches!(flat[0], Instruction::CON(Reg(0), 1)));
    assert!(matches!(flat[1], Instruction::CON(Reg(1), 2)));
    assert!(matches!(flat[2], Instruction::YLD(Reg(1))));
    assert_eq!(seg.output_register(), Some(Reg(1)));
}

#[test]
fn segment_spans_grow_with_appended_instructions() {
    let mut seg = Segment::block_from_inst(Instruction::CON(Reg(0), 1), (0, 1));
    seg.append_inst(Instruction::CON(Reg(1), 2), (1, 4));
    assert_eq!(seg.span_unchecked(), (0, 4));
    assert_eq!(seg.span(), Some((0, 4)));
    let mut sub = Segment::subprogram_from_segment(Segment::empty_block());
    assert_eq!(sub.span(), None);
    sub.set_output_register(Reg(7));
    assert_eq!(sub.output_register(), Some(Reg(7)));
    let hinted = {
        let mut s = Segment::empty_block();
        s.append_inst(Instruction::CMP(Reg(0), Reg(1), Some(Flag::Gt)), (0, 1));
        s
    };
    assert_eq!(hinted.latest_flag_hint(), Some(Flag::Gt));
}

#[test]
fn numbers_render_in_both_bases() {
    assert_eq!(dec_string(0), "0");
    assert_eq!(dec_string(12034), "12034");
    assert_eq!(hex_string(0xdeadbeef), "deadbeef");
    assert_eq!(hex_string(9), "9");
}

#[test]
fn instructions_render_in_the_assembly_form() {
    assert_eq!(inst_text(&Instruction::CON(Reg(0), 17)), "CONST %0, =0x11\n");
    assert_eq!(
        inst_text(&Instruction::ADD(Reg(2), Reg(0), Reg(1))),
        "ADD %2, %0, %1\n"
    );
    assert_eq!(inst_text(&Instruction::CMP(Reg(0), Reg(1), Some(Flag::Lt))), "CMP %0, %1\n");
    assert_eq!(inst_text(&Instruction::CHK(Flag::Ge)), "CHK >=\n");
    assert_eq!(inst_text(&Instruction::LBL("top".to_owned())), "top:\n");
    assert_eq!(inst_text(&Instruction::BRA("top".to_owned())), "BRA top\n");
    assert_eq!(
        inst_text(&Instruction::STR(Reg(0), Reg(1), Mode::PostOffset(Reg(2)))),
        "STR %0, [%1], %2\n"
    );
    assert_eq!(
        inst_text(&Instruction::LDR(Reg(0), Reg(1), Mode::PreOffset(Reg(2)))),
        "LDR %0, [%1, %2]!\n"
    );
    assert_eq!(
        insts_text(&vec![Instruction::CON(Reg(0), 1), Instruction::YLD(Reg(0))]),
        "CONST %0, =0x1\nYLD %0\n"
    );
    assert_eq!(flag_text(&Flag::Al), "1");
    assert_eq!(flag_text(&Flag::Nv), "0");
}

#[test]
fn tokens_render_close_to_their_source_form() {
    assert_eq!(token_text(&TokenType::Assign), ":=");
    assert_eq!(token_text(&TokenType::Number(42)), "42");
    assert_eq!(token_text(&TokenType::Identifier("abc".to_owned())), "abc");
    assert_eq!(token_text(&TokenType::Bool(false)), "false");
    assert_eq!(token_text(&TokenType::EOF), "EOF");
}

#[test]
fn whole_pipeline_is_deterministic() {
    let src = "let a := 3; while a > 0 { yield a * a; a := a - 1; }";
    assert_eq!(run_source(src), vec![9, 4, 1]);
    assert_eq!(run_source(src), run_source(src));
}
