//! The compiler: from the syntax tree of a program to assembly.
use vstd::prelude::*;
use crate::code::block::{block_printable, blocks_text, data_text, to_asm, CodeBlock};
use crate::code::generator::{code_error, frames_code, frames_expressible, CodeBlockGenerator};
use crate::code::optimizer::{optimize_code, optimized_blocks};
use crate::error::{error_tag, placed_error, texts, to_compiler_error, unit_at, unit_of, Error};
use crate::ir::block::Block;
use crate::ir::generator::{
    block_shape, declared_functions, distinct_functions, function_blocks, generate, generate_fails, generated_program,
    is_top_level, laid_out, lemma_function_blocks_same, program_layout,
};
use crate::llir::block::FrameBlock;
use crate::llir::builder::{table_state, TableState};
use crate::llir::generator::{
    all_lowered, frame_generated, frame_size_of, generate_llir, lowering_fails, runs_generated,
};
use crate::llir::optimizer::{optimize_llir, same_frame};
use crate::parse::ast;
use crate::symbol_table::{scope_data, scope_variables, DefaultSymbolTable, SymbolEntry, SymbolTable};
use crate::text::push_str;

verus! {

/// What compiling produced, stage by stage.
#[derive(Debug)]
pub struct CompilerOutput {
    pub global_symbol_table: DefaultSymbolTable,
    pub ast: Option<Vec<ast::Expression>>,
    pub ir: Option<Vec<Block>>,
    pub llir: Option<Vec<FrameBlock>>,
    pub code: Option<Vec<CodeBlock>>,
    pub assembly: Option<String>,
    pub asm_map: Option<String>,
    pub bytes: Option<Vec<u8>>,
}

/// How to compile: which optimizations to make, and the labels of the
/// interrupt vectors, if any.
#[derive(Debug)]
pub struct CompilerOptions {
    pub optimize_llir: bool,
    pub optimize_code: bool,
    pub vector_reset_label: Option<String>,
    pub vector_irq_label: Option<String>,
    pub vector_nmi_label: Option<String>,
}

impl Default for CompilerOptions {
    fn default() -> (r: CompilerOptions)
        ensures
            !r.optimize_llir,
            !r.optimize_code,
            r.vector_reset_label is None,
            r.vector_irq_label is None,
            r.vector_nmi_label is None,
    {
        CompilerOptions {
            optimize_llir: false,
            optimize_code: false,
            vector_reset_label: None,
            vector_irq_label: None,
            vector_nmi_label: None,
        }
    }
}

/// Builds compiler options; what is not set keeps its default.
#[derive(Debug)]
pub struct CompilerOptionsBuilder {
    options: CompilerOptions,
}

impl CompilerOptionsBuilder {
    pub closed spec fn options(&self) -> CompilerOptions {
        self.options
    }

    pub fn default() -> (r: CompilerOptionsBuilder)
        ensures
            !r.options().optimize_llir,
            !r.options().optimize_code,
            r.options().vector_reset_label is None,
            r.options().vector_irq_label is None,
            r.options().vector_nmi_label is None,
    {
        CompilerOptionsBuilder { options: CompilerOptions::default() }
    }

    pub fn optimize_llir(&mut self, value: bool) -> (r: &mut CompilerOptionsBuilder)
        ensures
            r.options() == (CompilerOptions { optimize_llir: value, ..old(self).options() }),
            *final(self) == *final(r),
    {
        self.options.optimize_llir = value;
        self
    }

    pub fn optimize_code(&mut self, value: bool) -> (r: &mut CompilerOptionsBuilder)
        ensures
            r.options() == (CompilerOptions { optimize_code: value, ..old(self).options() }),
            *final(self) == *final(r),
    {
        self.options.optimize_code = value;
        self
    }

    pub fn vector_reset_label(&mut self, value: Option<String>) -> (r: &mut CompilerOptionsBuilder)
        ensures
            r.options() == (CompilerOptions { vector_reset_label: value, ..old(self).options() }),
            *final(self) == *final(r),
    {
        self.options.vector_reset_label = value;
        self
    }

    pub fn vector_irq_label(&mut self, value: Option<String>) -> (r: &mut CompilerOptionsBuilder)
        ensures
            r.options() == (CompilerOptions { vector_irq_label: value, ..old(self).options() }),
            *final(self) == *final(r),
    {
        self.options.vector_irq_label = value;
        self
    }

    pub fn vector_nmi_label(&mut self, value: Option<String>) -> (r: &mut CompilerOptionsBuilder)
        ensures
            r.options() == (CompilerOptions { vector_nmi_label: value, ..old(self).options() }),
            *final(self) == *final(r),
    {
        self.options.vector_nmi_label = value;
        self
    }

    /// The options built.
    pub fn build(&self) -> (r: Result<CompilerOptions, String>)
        ensures
            r matches Ok(o) && o.optimize_llir == self.options().optimize_llir
                && o.optimize_code == self.options().optimize_code
                && o.vector_reset_label == self.options().vector_reset_label
                && o.vector_irq_label == self.options().vector_irq_label
                && o.vector_nmi_label == self.options().vector_nmi_label,
    {
        Ok(
            CompilerOptions {
                optimize_llir: self.options.optimize_llir,
                optimize_code: self.options.optimize_code,
                vector_reset_label: self.options.vector_reset_label.clone(),
                vector_irq_label: self.options.vector_irq_label.clone(),
                vector_nmi_label: self.options.vector_nmi_label.clone(),
            },
        )
    }
}

/// Whether `llir` is the low-level form of the blocks `ir`, block by block,
/// as generating it gives, or, when it was optimized, the same frames as
/// such a form.
pub open spec fn frames_generated(ir: Seq<Block>, llir: Seq<FrameBlock>, optimized: bool) -> bool {
    &&& llir.len() == ir.len()
    &&& !optimized ==> forall|b: int| 0 <= b < llir.len() ==> frame_generated(ir[b], #[trigger] llir[b])
    &&& optimized ==> forall|b: int| 0 <= b < llir.len() ==> frame_kept(ir[b], #[trigger] llir[b])
}

/// Whether `frame` holds the same as a frame that generating `ir_block`
/// gives.
pub open spec fn frame_kept(ir_block: Block, frame: FrameBlock) -> bool {
    exists|f: FrameBlock| #[trigger] frame_generated(ir_block, f) && same_frame(frame, f)
}

/// Whether a command-line value is the single character `c`.
fn is_single(value: &str, c: char) -> (r: bool)
    ensures
        r == (value@ == seq![c]),
{
    if value.unicode_len() != 1 {
        return false;
    }
    let first = value.get_char(0);
    proof {
        if first == c {
            assert(value@ =~= seq![c]);
        }
    }
    first == c
}

/// The options that the command line asks for: optimization level `1`
/// optimizes the low-level representation, level `2` the assembly blocks
/// too, any other level or none optimizes nothing; the labels of the
/// interrupt vectors are taken as given.
pub fn options_from_arguments(
    optimize: Option<String>,
    vector_reset: Option<String>,
    vector_irq: Option<String>,
    vector_nmi: Option<String>,
) -> (r: CompilerOptions)
    ensures
        r.optimize_llir == (optimize matches Some(level) && (level@ == seq!['1'] || level@ == seq!['2'])),
        r.optimize_code == (optimize matches Some(level) && level@ == seq!['2']),
        r.vector_reset_label == vector_reset,
        r.vector_irq_label == vector_irq,
        r.vector_nmi_label == vector_nmi,
{
    let mut builder = CompilerOptionsBuilder::default();
    match &optimize {
        Some(level) => {
            if is_single(level.as_str(), '1') {
                builder.optimize_llir(true);
                assert(level@[0] != seq!['2'][0]);
            } else if is_single(level.as_str(), '2') {
                builder.optimize_llir(true);
                builder.optimize_code(true);
            }
        },
        None => {},
    }
    builder.vector_reset_label(vector_reset);
    builder.vector_irq_label(vector_irq);
    builder.vector_nmi_label(vector_nmi);
    builder.build().unwrap()
}

/// Whether `used` are the low-level blocks that the assembly is generated
/// from: the same frames as `llir` when they were optimized, else `llir`
/// itself.
pub open spec fn llir_used(llir: Seq<FrameBlock>, used: Seq<FrameBlock>, optimized: bool) -> bool {
    if optimized {
        used.len() == llir.len() && forall|b: int| 0 <= b < llir.len() ==> same_frame(#[trigger] used[b], llir[b])
    } else {
        used == llir
    }
}

/// Whether `code` are the assembly blocks that are printed: those that
/// optimizing `raw` gives when asked, else `raw` itself.
pub open spec fn code_used(raw: Seq<CodeBlock>, code: Seq<CodeBlock>, optimized: bool) -> bool {
    if optimized {
        optimized_blocks(raw, code)
    } else {
        code == raw
    }
}

/// Whether turning the low-level blocks `used` into assembly text, with the
/// global table's scopes `scopes`, fails: some statement has no code; or,
/// once the code is generated (and optimized when asked), some block
/// cannot be printed, or a data constant has no name.
pub open spec fn assembly_fails(used: Seq<FrameBlock>, scopes: Seq<Seq<SymbolEntry>>, optimized: bool) -> bool {
    ||| !frames_expressible(used, used, scopes)
    ||| exists|raw: Seq<CodeBlock>, code: Seq<CodeBlock>|
        #![trigger frames_code(used, used, scopes, raw), code_used(raw, code, optimized)]
        frames_code(used, used, scopes, raw) && code_used(raw, code, optimized) && ((exists|b: int|
            0 <= b < code.len() && !block_printable(#[trigger] code[b], scopes)) || (forall|b: int|
            0 <= b < code.len() ==> block_printable(#[trigger] code[b], scopes)) && data_text(
            scope_data(scopes[0]),
            scopes,
        ) is None)
}

/// The error reported for an error `x0` of building the intermediate
/// representation, given the units' names and texts: placed among the
/// units, as `placed_error` says, when its tag falls in their texts; else
/// `x0` itself.
pub open spec fn reported(names: Seq<String>, sources: Seq<String>, x0: Error, x: Error) -> bool {
    if error_tag(x0.0) matches Some(t) && unit_at(texts(sources), t.0 as int) is Some {
        placed_error(names, sources, x0, x)
    } else {
        x == x0
    }
}

/// Whether compiling the units `units` (named `names`, with the texts
/// `sources`) with the options `o` fails with `x`, stage by stage, each at
/// the state the stages before it left: building the intermediate
/// representation fails with an error that is reported as `x`, as
/// `generate_fails` and `reported` say; or it succeeds and lowering its
/// blocks fails with `x`, as `lowering_fails` says; or that succeeds too and
/// turning the low-level blocks into assembly text fails, as
/// `assembly_fails` says, with an error of code generation.
pub open spec fn compile_fails(
    units: Seq<ast::Expression>,
    names: Seq<String>,
    sources: Seq<String>,
    o: CompilerOptions,
    x: Error,
) -> bool {
    ||| exists|x0: Error| #[trigger] generate_fails(units, x0) && reported(names, sources, x0, x)
    ||| exists|ir: Seq<Block>, g: TableState|
        #[trigger] generated_program(units, ir, g) && lowering_fails(ir, g, x)
    ||| exists|ir: Seq<Block>, g: TableState, llir: Seq<FrameBlock>, g1: TableState, used: Seq<FrameBlock>|
        #![trigger generated_program(units, ir, g), all_lowered(ir, llir, g, g1), llir_used(llir, used, o.optimize_llir)]
        generated_program(units, ir, g) && all_lowered(ir, llir, g, g1) && llir_used(llir, used, o.optimize_llir)
            && assembly_fails(used, g1.0, o.optimize_code) && code_error(x)
}

proof fn lemma_assembly_stage_fails(
    units: Seq<ast::Expression>,
    names: Seq<String>,
    sources: Seq<String>,
    o: CompilerOptions,
    ir: Seq<Block>,
    g: TableState,
    llir: Seq<FrameBlock>,
    g1: TableState,
    used: Seq<FrameBlock>,
    x: Error,
)
    requires
        generated_program(units, ir, g),
        all_lowered(ir, llir, g, g1),
        llir_used(llir, used, o.optimize_llir),
        assembly_fails(used, g1.0, o.optimize_code),
        code_error(x),
    ensures
        compile_fails(units, names, sources, o, x),
{
}

/// A compiler for a program made of units.
pub struct Compiler {
    units: Vec<ast::Expression>,
    unit_names: Vec<String>,
    unit_sources: Vec<String>,
    options: CompilerOptions,
}

/// The lines that place the interrupt vectors at the top of memory: the
/// labels of the NMI, reset and IRQ handlers, `main` where none is given.
pub open spec fn vectors_text(nmi: Seq<char>, reset: Seq<char>, irq: Seq<char>) -> Seq<char> {
    "\n.org\t$FFFA\n.vector\t"@ + nmi + "\n.vector\t"@ + reset + "\n.vector\t"@ + irq + "\n"@
}

/// What follows the blocks and data of the program: the interrupt vectors
/// when a label for one of them is given, else nothing.
pub open spec fn vectors_part(o: CompilerOptions) -> Seq<char> {
    if o.vector_irq_label is Some || o.vector_nmi_label is Some || o.vector_reset_label is Some {
        vectors_text(
            vector_label(o.vector_nmi_label),
            vector_label(o.vector_reset_label),
            vector_label(o.vector_irq_label),
        )
    } else {
        Seq::empty()
    }
}

/// The label of a vector, `main` where none is given.
pub open spec fn vector_label(label: Option<String>) -> Seq<char> {
    match label {
        Some(l) => l@,
        None => "main"@,
    }
}

/// When a label is given for any interrupt, the vectors follow the program
/// from `$FFFA` on in the 6502's order: the NMI handler, then the reset
/// entry, then the IRQ handler, each `main` where none is given; with no
/// label given, nothing follows.
pub proof fn lemma_vectors_order(o: CompilerOptions)
    ensures
        ({
            let nmi = match o.vector_nmi_label {
                Some(l) => l@,
                None => "main"@,
            };
            let reset = match o.vector_reset_label {
                Some(l) => l@,
                None => "main"@,
            };
            let irq = match o.vector_irq_label {
                Some(l) => l@,
                None => "main"@,
            };
            vectors_part(o) == if o.vector_irq_label is Some || o.vector_nmi_label is Some
                || o.vector_reset_label is Some {
                "\n.org\t$FFFA\n.vector\t"@ + nmi + "\n.vector\t"@ + reset + "\n.vector\t"@ + irq + "\n"@
            } else {
                Seq::<char>::empty()
            }
        }),
{
}

fn push_label(program: &mut String, label: &Option<String>)
    ensures
        final(program)@ == old(program)@ + vector_label(*label),
{
    match label {
        Some(l) => push_str(program, l.as_str()),
        None => push_str(program, "main"),
    }
}

impl Compiler {
    /// The units added so far, in order.
    pub closed spec fn units(&self) -> Seq<ast::Expression> {
        self.units@
    }

    pub closed spec fn options(&self) -> CompilerOptions {
        self.options
    }

    /// The names of the units added so far, in order.
    pub closed spec fn unit_names(&self) -> Seq<String> {
        self.unit_names@
    }

    /// The texts of the units added so far, in order: they follow one
    /// another in the program text that tags point into.
    pub closed spec fn unit_sources(&self) -> Seq<String> {
        self.unit_sources@
    }

    pub fn new(options: CompilerOptions) -> (r: Compiler)
        ensures
            r.units().len() == 0,
            r.unit_names().len() == 0,
            r.unit_sources().len() == 0,
            r.options() == options,
    {
        Compiler { units: Vec::new(), unit_names: Vec::new(), unit_sources: Vec::new(), options }
    }

    /// Adds a unit: its name, its text, and the top-level nodes parsed from
    /// that text, whose tags are offsets in the program text (the texts of
    /// the units added so far, one after another).
    pub fn add_unit(&mut self, unit_name: &str, unit: &str, expressions: Vec<ast::Expression>)
        ensures
            final(self).units() == old(self).units() + expressions@,
            final(self).unit_names().len() == old(self).unit_names().len() + 1,
            final(self).unit_sources().len() == old(self).unit_sources().len() + 1,
            forall|k: int| 0 <= k < old(self).unit_names().len() ==> final(self).unit_names()[k] == old(self).unit_names()[k],
            forall|k: int| 0 <= k < old(self).unit_sources().len() ==> final(self).unit_sources()[k] == old(self).unit_sources()[k],
            final(self).unit_names().last()@ == unit_name@,
            final(self).unit_sources().last()@ == unit@,
            final(self).options() == old(self).options(),
    {
        let mut expressions = expressions;
        self.units.append(&mut expressions);
        self.unit_names.push(unit_name.to_owned());
        self.unit_sources.push(unit.to_owned());
    }

    /// Compiles the units: the intermediate representation, the low-level
    /// one (optimized if asked), the assembly blocks (optimized if asked),
    /// and the assembly text, with the interrupt vectors after it when a
    /// label for one is given. An error of building the intermediate
    /// representation is placed in the unit its tag falls in (its name, and
    /// the row and column there), as `to_compiler_error` does, when the tag
    /// falls in the units' texts; the errors of later stages are returned as
    /// they are. Assembling the text into bytes is left to an assembler:
    /// `asm_map` and `bytes` stay empty.
    #[verifier::spinoff_prover]
    #[verifier::rlimit(40)]
    pub fn compile(self) -> (r: Result<CompilerOutput, Error>)
        requires
            forall|i: int| 0 <= i < self.units().len() ==> is_top_level(#[trigger] self.units()[i]),
            self.unit_names().len() == self.unit_sources().len(),
            forall|k: int| 0 <= k < self.unit_sources().len() ==> (#[trigger] self.unit_sources()[k])@.len() < usize::MAX,
        ensures
            r matches Err(x) ==> compile_fails(self.units(), self.unit_names(), self.unit_sources(), self.options(), x),
            r matches Ok(out) ==> {
                &&& out.ast matches Some(a) && a@ == self.units()
                &&& out.ir is Some && out.llir is Some && out.code is Some && out.assembly is Some
                &&& out.asm_map is None && out.bytes is None
                &&& function_blocks(out.ir->0@) == declared_functions(self.units())
                &&& laid_out(out.ir->0@, program_layout(self.units()))
                &&& distinct_functions(self.units())
                &&& frames_generated(out.ir->0@, out.llir->0@, self.options().optimize_llir)
                &&& exists|ir0: Seq<Block>, g0: TableState, raw: Seq<FrameBlock>, g1: TableState|
                    #![trigger generated_program(self.units(), ir0, g0), all_lowered(ir0, raw, g0, g1)]
                    generated_program(self.units(), ir0, g0) && all_lowered(ir0, raw, g0, g1) && llir_used(
                        raw,
                        out.llir->0@,
                        self.options().optimize_llir,
                    ) && g1.0 == out.global_symbol_table.scopes() && out.ir->0@.len() == ir0.len() && forall|b: int|
                        0 <= b < ir0.len() ==> #[trigger] out.ir->0@[b] == (Block {
                            symbol_table: out.ir->0@[b].symbol_table,
                            ..ir0[b]
                        })
                &&& out.code->0@.len() > 0 ==> forall|i: int|
                    0 <= i < out.code->0@.len() ==> block_printable(
                        #[trigger] out.code->0@[i],
                        out.global_symbol_table.scopes(),
                    )
                &&& data_text(
                    scope_data(out.global_symbol_table.scopes()[0]),
                    out.global_symbol_table.scopes(),
                ) matches Some(data) && out.assembly->0@ == blocks_text(out.code->0@, out.global_symbol_table.scopes()) + data
                    + vectors_part(self.options())
                &&& !self.options().optimize_code ==> frames_code(
                    out.llir->0@,
                    out.llir->0@,
                    out.global_symbol_table.scopes(),
                    out.code->0@,
                )
                &&& self.options().optimize_code ==> exists|raw: Seq<CodeBlock>|
                    #[trigger] frames_code(out.llir->0@, out.llir->0@, out.global_symbol_table.scopes(), raw)
                        && optimized_blocks(raw, out.code->0@)
            },
    {
        let ghost all = self.units();
        let units = self.units;
        let names = self.unit_names;
        let sources = self.unit_sources;
        let options = self.options;
        proof {
            assert(units@ == all);
        }
        let (mut ir, mut global_symbol_table) = match generate(&units) {
            Ok(pair) => pair,
            Err(x0) => {
                let located = match x0.tag() {
                    Some(t) => unit_of(&sources, t.0).is_some(),
                    None => false,
                };
                let x = if located {
                    to_compiler_error(&names, &sources, x0)
                } else {
                    x0
                };
                proof {
                    assert(generate_fails(all, x0) && reported(names@, sources@, x0, x));
                    assert(compile_fails(all, names@, sources@, options, x));
                }
                return Err(x);
            },
        };
        let ghost ir_before = ir@;
        let ghost g0 = table_state(global_symbol_table);
        proof {
            assert(generated_program(all, ir_before, g0));
        }
        let mut llir = match generate_llir(&mut ir, &mut global_symbol_table) {
            Ok(blocks) => blocks,
            Err(x) => {
                proof {
                    assert(lowering_fails(ir_before, g0, x));
                    assert(compile_fails(all, names@, sources@, options, x));
                }
                return Err(x);
            },
        };
        let ghost raw_llir = llir@;
        let ghost g1 = table_state(global_symbol_table);
        proof {
            assert(all_lowered(ir_before, raw_llir, g0, g1));
        }
        proof {
            assert forall|b: int| 0 <= b < ir@.len() implies (#[trigger] ir@[b]).anonymous == ir_before[b].anonymous
                && ir@[b].name == ir_before[b].name by {
                assert(ir@[b] == (Block { symbol_table: ir@[b].symbol_table, ..ir_before[b] }));
            }
            lemma_function_blocks_same(ir@, ir_before);
            assert forall|b: int| 0 <= b < ir@.len() implies block_shape(#[trigger] ir@[b]) == block_shape(
                ir_before[b],
            ) by {
                assert(ir@[b] == (Block { symbol_table: ir@[b].symbol_table, ..ir_before[b] }));
            }
            assert forall|b: int| 0 <= b < raw_llir.len() implies frame_generated(ir@[b], #[trigger] raw_llir[b]) by {
                let f = raw_llir[b];
                assert(frame_generated(ir_before[b], f));
                assert(ir@[b] == (Block { symbol_table: ir@[b].symbol_table, ..ir_before[b] }));
                assert(ir@[b].body == ir_before[b].body);
                let (t0, t1) = choose|t0: TableState, t1: TableState|
                    #[trigger] runs_generated(ir_before[b].body@, ir_before[b].symbol, t0, f.runs@, t1)
                        && f.frame_size == frame_size_of(scope_variables(t1.0[0]));
                assert(runs_generated(ir@[b].body@, ir@[b].symbol, t0, f.runs@, t1));
            }
        }
        if options.optimize_llir {
            llir = match optimize_llir(&llir) {
                Ok(blocks) => blocks,
                Err(x) => {
                    return Err(x);
                },
            };
        }
        proof {
            assert(llir_used(raw_llir, llir@, options.optimize_llir));
            if options.optimize_llir {
                assert forall|b: int| 0 <= b < llir@.len() implies frame_kept(ir@[b], #[trigger] llir@[b]) by {
                    assert(frame_generated(ir@[b], raw_llir[b]) && same_frame(llir@[b], raw_llir[b]));
                }
            } else {
                assert(llir@ == raw_llir);
            }
            assert(frames_generated(ir@, llir@, options.optimize_llir));
        }
        let mut code = match CodeBlockGenerator::new(&global_symbol_table, &llir).generate() {
            Ok(blocks) => blocks,
            Err(x) => {
                proof {
                    assert(assembly_fails(llir@, g1.0, options.optimize_code));
                    lemma_assembly_stage_fails(all, names@, sources@, options, ir_before, g0, raw_llir, g1, llir@, x);
                }
                return Err(x);
            },
        };
        let ghost raw = code@;
        let ghost scopes = global_symbol_table.scopes();
        assert(frames_code(llir@, llir@, scopes, raw));
        if options.optimize_code {
            code = match optimize_code(code.as_slice()) {
                Ok(blocks) => blocks,
                Err(x) => {
                    return Err(x);
                },
            };
        }
        proof {
            assert(code_used(raw, code@, options.optimize_code));
        }
        let mut k: usize = 0;
        while k < code.len()
            invariant
                k <= code@.len(),
                forall|j: int| 0 <= j < k ==> block_printable(#[trigger] code@[j], global_symbol_table.scopes()),
                global_symbol_table.scopes() == g1.0,
                code_used(raw, code@, options.optimize_code),
                frames_code(llir@, llir@, g1.0, raw),
                generated_program(all, ir_before, g0),
                all_lowered(ir_before, raw_llir, g0, g1),
                llir_used(raw_llir, llir@, options.optimize_llir),
                all == self.units(),
                options == self.options(),
            decreases code@.len() - k,
        {
            if !code[k].is_printable(&global_symbol_table) {
                let x = crate::llir::common::unsupported(
                    crate::src_tag::SrcTag::invalid(),
                    "The generated code uses an operand that can't be printed",
                );
                proof {
                    assert(!block_printable(code@[k as int], g1.0));
                    assert(assembly_fails(llir@, g1.0, options.optimize_code));
                    lemma_assembly_stage_fails(all, names@, sources@, options, ir_before, g0, raw_llir, g1, llir@, x);
                }
                return Err(x);
            }
            k += 1;
        }
        let mut program = match to_asm(&global_symbol_table, &code) {
            Ok(text) => text,
            Err(x) => {
                proof {
                    assert(assembly_fails(llir@, g1.0, options.optimize_code));
                    lemma_assembly_stage_fails(all, names@, sources@, options, ir_before, g0, raw_llir, g1, llir@, x);
                }
                return Err(x);
            },
        };
        if options.vector_irq_label.is_some() || options.vector_nmi_label.is_some()
            || options.vector_reset_label.is_some() {
            push_str(&mut program, "\n.org\t$FFFA\n.vector\t");
            push_label(&mut program, &options.vector_nmi_label);
            push_str(&mut program, "\n.vector\t");
            push_label(&mut program, &options.vector_reset_label);
            push_str(&mut program, "\n.vector\t");
            push_label(&mut program, &options.vector_irq_label);
            push_str(&mut program, "\n");
        }
        let out = CompilerOutput {
            global_symbol_table,
            ast: Some(units),
            ir: Some(ir),
            llir: Some(llir),
            code: Some(code),
            assembly: Some(program),
            asm_map: None,
            bytes: None,
        };
        proof {
            assert(out.global_symbol_table.scopes() == scopes);
            assert(generated_program(all, ir_before, g0) && all_lowered(ir_before, raw_llir, g0, g1));

            if options.optimize_code {
                assert(frames_code(out.llir->0@, out.llir->0@, scopes, raw) && optimized_blocks(
                    raw,
                    out.code->0@,
                ));
            }
        }
        Ok(out)
    }
}

} // verus!
