//! The compiler pipeline, from front to back: source text to tokens, tokens
//! to a syntax tree, the syntax tree to a flat instruction sequence. Each
//! stage consumes the previous stage's output; running the instruction
//! sequence is the host's affair.

use vstd::prelude::*;
use crate::air::Inst;
use crate::ast::{stmts_view, Statement};
use crate::block::Block;
use crate::error::LangError;
use crate::gen::{
    blocks_shape,
    generate_program,
    spec_stmts_effect,
    stmts_shape,
    GenStateV,
    GenerationState,
};
use crate::lex::{spec_lex_from, token_views, Lexer};
use crate::parse::{spec_parse_stmts, LangParser};
use crate::span::SpanFactory;
use crate::token::Token;
use crate::vm::VMFlags;

verus! {

/// Options for running a program, as the host's command line gives them.
#[derive(Debug, Clone)]
pub struct RunArgs {
    pub file: Option<String>,
    pub stdin: bool,
    /// memory size of the virtual machine in bytes
    pub memory_size: usize,
    /// quiet
    pub quiet: bool,
    /// verbose
    pub verbose: bool,
    /// very verbose
    pub very_verbose: bool,
    /// a path to a folder to log to
    pub log_path: Option<String>,
}

impl RunArgs {
    /// The machine options these arguments ask for.
    pub fn vm_flags(&self) -> (r: VMFlags)
        ensures
            r.memory_size == self.memory_size,
            r.verbosity == (if self.quiet {
                0u8
            } else if self.verbose {
                2u8
            } else if self.very_verbose {
                3u8
            } else {
                crate::vm::DEFAULT_VERBOSITY
            }),
    {
        let verbosity: u8 = if self.quiet {
            0
        } else if self.verbose {
            2
        } else if self.very_verbose {
            3
        } else {
            crate::vm::DEFAULT_VERBOSITY
        };
        VMFlags { memory_size: self.memory_size, verbosity }
    }
}

/// A stage-order mistake: each pipeline stage accepts only its predecessor's
/// output.
#[derive(Debug)]
pub enum PipelineError {
    ReadError(String),
    InvalidLex(String),
    InvalidParse(String),
    InvalidBuild(String),
    InvalidRun(String),
    InvalidWithArgs(String),
    InvalidUTF8Input,
    ErrorReadFromStdin(String),
    InvalidInto(String, String),
}

/// What stops a pipeline: a language error with its span, or a stage-order
/// mistake.
#[derive(Debug)]
pub enum PipelineFailure {
    Lang(LangError),
    Stage(PipelineError),
}

/// The pipeline's state: the source text, optional run options, and the
/// representation the stages have reached.
#[derive(Debug)]
pub enum Pipeline {
    Text(String, Option<RunArgs>),
    Tokens(String, Option<RunArgs>, Vec<Token>),
    SyntaxTree(String, Option<RunArgs>, Vec<Statement>),
    IntermediateRepr(String, Option<RunArgs>, Vec<Inst>),
}

/// The generator state every program starts from.
pub open spec fn initial_gen_state() -> GenStateV {
    GenStateV { next_reg: 0, variables: Map::empty(), pointers: Map::empty(), next_mem_addr: 0 }
}

/// The instructions of a block sequence, in order.
pub open spec fn blocks_insts(blocks: Seq<Block>) -> Seq<Inst>
    decreases blocks.len(),
{
    if blocks.len() == 0 {
        Seq::empty()
    } else {
        blocks[0].instructions@ + blocks_insts(blocks.drop_first())
    }
}

/// Blocks that correspond to a statement list one by one concatenate to an
/// instruction sequence shaped from the whole list.
pub proof fn lemma_blocks_shape_concat(
    ss: Seq<crate::ast::StatementV>,
    st: GenStateV,
    blocks: Seq<Block>,
)
    requires
        blocks_shape(ss, st, blocks),
    ensures
        stmts_shape(ss, st, blocks_insts(blocks)),
    decreases ss.len(),
{
    if ss.len() > 0 {
        match crate::gen::spec_stmt_effect(ss[0], st) {
            Err(_) => {},
            Ok((st1, _)) => {
                lemma_blocks_shape_concat(ss.drop_first(), st1, blocks.drop_first());
                assert(blocks_insts(blocks) == blocks[0].instructions@ + blocks_insts(
                    blocks.drop_first(),
                ));
            },
        }
    }
}

impl Pipeline {
    /// The name of the stage this pipeline has reached.
    pub fn stage_name(&self) -> (r: String)
        ensures
            (match self {
                Pipeline::Text(..) => r@ == "Text"@,
                Pipeline::Tokens(..) => r@ == "Tokens"@,
                Pipeline::SyntaxTree(..) => r@ == "SyntaxTree"@,
                Pipeline::IntermediateRepr(..) => r@ == "Intermediate Representation"@,
            }),
    {
        match self {
            Pipeline::Text(..) => "Text".to_owned(),
            Pipeline::Tokens(..) => "Tokens".to_owned(),
            Pipeline::SyntaxTree(..) => "SyntaxTree".to_owned(),
            Pipeline::IntermediateRepr(..) => "Intermediate Representation".to_owned(),
        }
    }

    /// Attach run options, leaving everything else of the pipeline as it
    /// stands; only a pipeline that has not been built yet can take them.
    pub fn with_run_args(self, args: RunArgs) -> (r: Result<Pipeline, PipelineFailure>)
        ensures
            (match self {
                Pipeline::Text(src, _) => r matches Ok(p) && p matches Pipeline::Text(src2, a)
                    && src2 == src && a == Some(args),
                Pipeline::Tokens(src, _, tokens) => r matches Ok(p) && p matches Pipeline::Tokens(
                    src2,
                    a,
                    tokens2,
                ) && src2 == src && a == Some(args) && tokens2 == tokens,
                Pipeline::SyntaxTree(src, _, ast) => r matches Ok(p) && p matches
                    Pipeline::SyntaxTree(src2, a, ast2) && src2 == src && a == Some(args) && ast2
                    == ast,
                Pipeline::IntermediateRepr(..) => r matches Err(f) && f matches
                    PipelineFailure::Stage(e) && e is InvalidWithArgs,
            }),
    {
        match self {
            Pipeline::Text(src, _) => Ok(Pipeline::Text(src, Some(args))),
            Pipeline::Tokens(src, _, tokens) => Ok(Pipeline::Tokens(src, Some(args), tokens)),
            Pipeline::SyntaxTree(src, _, ast) => Ok(Pipeline::SyntaxTree(src, Some(args), ast)),
            p => Err(PipelineFailure::Stage(PipelineError::InvalidWithArgs(p.stage_name()))),
        }
    }

    /// Lex the source text: the token stream of [`spec_lex_from`], or the
    /// first lexing error.
    pub fn lex(self, f: &mut SpanFactory) -> (r: Result<Pipeline, PipelineFailure>)
        ensures
            (match self {
                Pipeline::Text(src, _) => (match spec_lex_from(src@, 0, old(f).spent()) {
                    Ok(toks) => r matches Ok(p) && p matches Pipeline::Tokens(src2, _, v) && src2@
                        == src@ && token_views(v@) == toks,
                    Err(e) => r matches Err(x) && x matches PipelineFailure::Lang(le) && le@ == e,
                }),
                _ => r matches Err(x) && x matches PipelineFailure::Stage(e) && e is InvalidLex,
            }),
    {
        match self {
            Pipeline::Text(src, args) => {
                let tokens = {
                    let mut lexer = Lexer::new(src.as_str());
                    match lexer.run(f) {
                        Ok(t) => t,
                        Err(e) => {
                            return Err(PipelineFailure::Lang(e));
                        },
                    }
                };
                Ok(Pipeline::Tokens(src, args, tokens))
            },
            p => Err(PipelineFailure::Stage(PipelineError::InvalidLex(p.stage_name()))),
        }
    }

    /// Parse the token stream into a statement list: the statements of
    /// [`spec_parse_stmts`], or the first parse error.
    pub fn parse(self, f: &mut SpanFactory) -> (r: Result<Pipeline, PipelineFailure>)
        ensures
            (match self {
                Pipeline::Tokens(src, _, tokens) => tokens@.len() < usize::MAX ==> (
                match spec_parse_stmts(token_views(tokens@), 0, old(f).spent(), Seq::empty()) {
                    Ok(pair) => r matches Ok(p) && p matches Pipeline::SyntaxTree(src2, _, v)
                        && src2@ == src@ && stmts_view(v@) == pair.0,
                    Err(e) => r matches Err(x) && x matches PipelineFailure::Lang(le) && le@ == e,
                }),
                _ => r matches Err(x) && x matches PipelineFailure::Stage(e) && e is InvalidParse,
            }),
    {
        match self {
            Pipeline::Tokens(src, args, tokens) => {
                if tokens.len() == usize::MAX {
                    return Err(
                        PipelineFailure::Stage(PipelineError::InvalidParse("Tokens".to_owned())),
                    );
                }
                let ast = {
                    let mut parser = LangParser::new(tokens.as_slice());
                    match parser.parse_statement(Vec::new(), f) {
                        Ok(v) => v,
                        Err(e) => {
                            return Err(PipelineFailure::Lang(e));
                        },
                    }
                };
                proof {
                    assert(stmts_view(Seq::<Statement>::empty()) =~= Seq::<
                        crate::ast::StatementV,
                    >::empty());
                }
                Ok(Pipeline::SyntaxTree(src, args, ast))
            },
            p => Err(PipelineFailure::Stage(PipelineError::InvalidParse(p.stage_name()))),
        }
    }

    /// Lower the syntax tree to the flat instruction sequence: the generator
    /// state evolves as [`spec_stmts_effect`] says and the instructions are
    /// shaped per statement as [`stmts_shape`] says, or the first lowering
    /// error comes back.
    pub fn build(self) -> (r: Result<Pipeline, PipelineFailure>)
        ensures
            (match self {
                Pipeline::SyntaxTree(src, _, ast) => (match spec_stmts_effect(
                    stmts_view(ast@),
                    initial_gen_state(),
                    None,
                ) {
                    Ok(t) => r matches Ok(p) && p matches Pipeline::IntermediateRepr(src2, _, v)
                        && src2@ == src@ && stmts_shape(stmts_view(ast@), initial_gen_state(), v@),
                    Err(e) => r matches Err(x) && x matches PipelineFailure::Lang(le) && le@ == e,
                }),
                _ => r matches Err(x) && x matches PipelineFailure::Stage(e) && e is InvalidBuild,
            }),
    {
        match self {
            Pipeline::SyntaxTree(src, args, ast) => {
                let ghost ast0 = ast@;
                let mut gen_state = GenerationState::new();
                let blocks = match generate_program(&mut gen_state, ast) {
                    Ok(b) => b,
                    Err(e) => {
                        return Err(PipelineFailure::Lang(e));
                    },
                };
                proof {
                    lemma_blocks_shape_concat(stmts_view(ast0), initial_gen_state(), blocks@);
                }
                let mut air: Vec<Inst> = Vec::new();
                let mut k: usize = 0;
                proof {
                    assert(blocks@.subrange(0, 0) =~= Seq::<Block>::empty());
                    assert(air@ =~= blocks_insts(blocks@.subrange(0, 0)));
                }
                while k < blocks.len()
                    invariant
                        k <= blocks@.len(),
                        air@ == blocks_insts(blocks@.subrange(0, k as int)),
                    decreases blocks@.len() - k,
                {
                    let insts = &blocks[k].instructions;
                    let mut j: usize = 0;
                    while j < insts.len()
                        invariant
                            k < blocks@.len(),
                            j <= insts@.len(),
                            insts == &blocks@[k as int].instructions,
                            air@ == blocks_insts(blocks@.subrange(0, k as int))
                                + insts@.subrange(0, j as int),
                        decreases insts@.len() - j,
                    {
                        air.push(insts[j].clone());
                        proof {
                            assert(insts@.subrange(0, j + 1) =~= insts@.subrange(0, j as int).push(
                                insts@[j as int],
                            ));
                            assert(air@ =~= blocks_insts(blocks@.subrange(0, k as int))
                                + insts@.subrange(0, j + 1));
                        }
                        j = j + 1;
                    }
                    proof {
                        assert(insts@.subrange(0, insts@.len() as int) =~= insts@);
                        lemma_blocks_insts_take(blocks@, k as int);
                    }
                    k = k + 1;
                }
                proof {
                    assert(blocks@.subrange(0, blocks@.len() as int) =~= blocks@);
                }
                Ok(Pipeline::IntermediateRepr(src, args, air))
            },
            p => Err(PipelineFailure::Stage(PipelineError::InvalidBuild(p.stage_name()))),
        }
    }

    /// Take the token stream out of a lexed pipeline.
    pub fn into_tokens(self) -> (r: Result<Vec<Token>, PipelineFailure>)
        ensures
            (match self {
                Pipeline::Tokens(_, _, tokens) => r matches Ok(v) && v == tokens,
                _ => r matches Err(x) && x matches PipelineFailure::Stage(e) && e is InvalidInto,
            }),
    {
        match self {
            Pipeline::Tokens(_, _, tokens) => Ok(tokens),
            _ => Err(
                PipelineFailure::Stage(
                    PipelineError::InvalidInto("Tokens".to_owned(), "Tokens".to_owned()),
                ),
            ),
        }
    }

    /// Take the statement list out of a parsed pipeline.
    pub fn into_statements(self) -> (r: Result<Vec<Statement>, PipelineFailure>)
        ensures
            (match self {
                Pipeline::SyntaxTree(_, _, ast) => r matches Ok(v) && v == ast,
                _ => r matches Err(x) && x matches PipelineFailure::Stage(e) && e is InvalidInto,
            }),
    {
        match self {
            Pipeline::SyntaxTree(_, _, ast) => Ok(ast),
            _ => Err(
                PipelineFailure::Stage(
                    PipelineError::InvalidInto(
                        "Vec<Statement>".to_owned(),
                        "SyntaxTree".to_owned(),
                    ),
                ),
            ),
        }
    }

    /// Take the instruction sequence out of a built pipeline.
    pub fn into_instructions(self) -> (r: Result<Vec<Inst>, PipelineFailure>)
        ensures
            (match self {
                Pipeline::IntermediateRepr(_, _, insts) => r matches Ok(v) && v == insts,
                _ => r matches Err(x) && x matches PipelineFailure::Stage(e) && e is InvalidInto,
            }),
    {
        match self {
            Pipeline::IntermediateRepr(_, _, insts) => Ok(insts),
            _ => Err(
                PipelineFailure::Stage(
                    PipelineError::InvalidInto(
                        "Vec<Inst>".to_owned(),
                        "IntermediateRepr".to_owned(),
                    ),
                ),
            ),
        }
    }
}

/// Taking one more block extends the concatenated instructions by that
/// block's.
proof fn lemma_blocks_insts_take(blocks: Seq<Block>, k: int)
    requires
        0 <= k < blocks.len(),
    ensures
        blocks_insts(blocks.subrange(0, k + 1)) == blocks_insts(blocks.subrange(0, k))
            + blocks[k].instructions@,
    decreases k,
{
    if k == 0 {
        assert(blocks.subrange(0, 1).drop_first() =~= Seq::<Block>::empty());
        assert(blocks.subrange(0, 1)[0] == blocks[0]);
        assert(blocks_insts(Seq::<Block>::empty()) =~= Seq::<Inst>::empty());
        assert(blocks.subrange(0, 0) =~= Seq::<Block>::empty());
        assert(blocks_insts(blocks.subrange(0, 1)) =~= blocks_insts(blocks.subrange(0, 0))
            + blocks[0].instructions@);
    } else {
        lemma_blocks_insts_take(blocks.drop_first(), k - 1);
        assert(blocks.subrange(0, k + 1)[0] == blocks[0]);
        assert(blocks.subrange(0, k + 1).drop_first() =~= blocks.drop_first().subrange(0, k));
        assert(blocks.subrange(0, k)[0] == blocks[0]);
        assert(blocks.subrange(0, k).drop_first() =~= blocks.drop_first().subrange(0, k - 1));
        assert(blocks.drop_first()[k - 1] == blocks[k]);
        assert(blocks_insts(blocks.subrange(0, k + 1)) =~= blocks_insts(blocks.subrange(0, k))
            + blocks[k].instructions@);
    }
}

} // verus!
