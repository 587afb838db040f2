use vstd::prelude::*;
use crate::base_type::BaseType;
use crate::error::{Error, ErrorKind};
use crate::parse::ast::{BinaryOperator, NameType};
use crate::src_tag::{SrcTag, SrcTagged};
use crate::symbol_table::{
    DefaultSymbolTable, FunctionMetadata, Location, SymbolName, SymbolRef, SymbolTable, Variable,
};

verus! {

/// An element of an array variable; `array_type` is the array's type once known.
#[derive(Debug)]
pub struct ArrayIndexData {
    pub tag: SrcTag,
    pub array: SymbolRef,
    pub index: Box<Expr>,
    pub array_type: Option<BaseType>,
}

impl ArrayIndexData {
    pub fn new(tag: SrcTag, array: SymbolRef, index: Box<Expr>, array_type: Option<BaseType>) -> (r: ArrayIndexData)
        ensures
            r.tag == tag,
            r.array == array,
            r.index == index,
            r.array_type == array_type,
    {
        ArrayIndexData { tag, array, index, array_type }
    }
}

/// A binary operation; `result_type` is the type of its result once known.
#[derive(Debug)]
pub struct BinaryOpData {
    pub tag: SrcTag,
    pub op: BinaryOperator,
    pub left: Box<Expr>,
    pub right: Box<Expr>,
    pub result_type: Option<BaseType>,
}

impl BinaryOpData {
    pub fn new(tag: SrcTag, op: BinaryOperator, left: Box<Expr>, right: Box<Expr>, result_type: Option<BaseType>) -> (r: BinaryOpData)
        ensures
            r.tag == tag,
            r.op == op,
            r.left == left,
            r.right == right,
            r.result_type == result_type,
    {
        BinaryOpData { tag, op, left, right, result_type }
    }
}

/// A call of a function by name; `return_type` is known once the function is found.
#[derive(Debug)]
pub struct CallData {
    pub tag: SrcTag,
    pub function: SymbolName,
    pub arguments: Vec<Expr>,
    pub return_type: Option<BaseType>,
}

impl CallData {
    pub fn new(tag: SrcTag, function: SymbolName, arguments: Vec<Expr>, return_type: Option<BaseType>) -> (r: CallData)
        ensures
            r.tag == tag,
            r.function == function,
            r.arguments == arguments,
            r.return_type == return_type,
    {
        CallData { tag, function, arguments, return_type }
    }
}

/// A literal number; `value_type` is its type once known.
#[derive(Debug)]
pub struct NumberData {
    pub tag: SrcTag,
    pub value: i32,
    pub value_type: Option<BaseType>,
}

impl NumberData {
    pub fn new(tag: SrcTag, value: i32, value_type: Option<BaseType>) -> (r: NumberData)
        ensures
            r.tag == tag,
            r.value == value,
            r.value_type == value_type,
    {
        NumberData { tag, value, value_type }
    }
}

/// The value of a constant or variable; `value_type` is its type once known.
#[derive(Debug)]
pub struct SymbolData {
    pub tag: SrcTag,
    pub symbol: SymbolRef,
    pub value_type: Option<BaseType>,
}

impl SymbolData {
    pub fn new(tag: SrcTag, symbol: SymbolRef, value_type: Option<BaseType>) -> (r: SymbolData)
        ensures
            r.tag == tag,
            r.symbol == symbol,
            r.value_type == value_type,
    {
        SymbolData { tag, symbol, value_type }
    }
}

/// An expression of the intermediate representation.
#[derive(Debug)]
pub enum Expr {
    Number(NumberData),
    Symbol(SymbolData),
    BinaryOp(BinaryOpData),
    Call(CallData),
    ArrayIndex(ArrayIndexData),
}

/// Where an expression came from.
pub open spec fn expr_tag(e: Expr) -> SrcTag {
    match e {
        Expr::Number(d) => d.tag,
        Expr::Symbol(d) => d.tag,
        Expr::BinaryOp(d) => d.tag,
        Expr::Call(d) => d.tag,
        Expr::ArrayIndex(d) => d.tag,
    }
}

impl SrcTagged for Expr {
    open spec fn carried_tag(&self) -> SrcTag {
        expr_tag(*self)
    }

    fn src_tag(&self) -> (r: SrcTag) {
        match self {
            Expr::Number(d) => d.tag,
            Expr::Symbol(d) => d.tag,
            Expr::BinaryOp(d) => d.tag,
            Expr::Call(d) => d.tag,
            Expr::ArrayIndex(d) => d.tag,
        }
    }
}

impl Expr {
    /// Where the expression came from.
    pub fn tag(&self) -> (r: SrcTag)
        ensures
            r == expr_tag(*self),
    {
        match self {
            Expr::Number(d) => d.tag,
            Expr::Symbol(d) => d.tag,
            Expr::BinaryOp(d) => d.tag,
            Expr::Call(d) => d.tag,
            Expr::ArrayIndex(d) => d.tag,
        }
    }
}

/// `left_value = right_value`; `value_type` is the type assigned once known.
#[derive(Debug)]
pub struct AssignData {
    pub tag: SrcTag,
    pub value_type: Option<BaseType>,
    pub left_value: Expr,
    pub right_value: Expr,
}

impl AssignData {
    pub fn new(tag: SrcTag, value_type: Option<BaseType>, left_value: Expr, right_value: Expr) -> (r: AssignData)
        ensures
            r.tag == tag,
            r.value_type == value_type,
            r.left_value == left_value,
            r.right_value == right_value,
    {
        AssignData { tag, value_type, left_value, right_value }
    }
}

/// `if condition then when_true else when_false end`.
#[derive(Debug)]
pub struct ConditionalData {
    pub tag: SrcTag,
    pub condition: Expr,
    pub when_true: Vec<Statement>,
    pub when_false: Vec<Statement>,
}

impl ConditionalData {
    pub fn new(tag: SrcTag, condition: Expr, when_true: Vec<Statement>, when_false: Vec<Statement>) -> (r: ConditionalData)
        ensures
            r.tag == tag,
            r.condition == condition,
            r.when_true == when_true,
            r.when_false == when_false,
    {
        ConditionalData { tag, condition, when_true, when_false }
    }
}

/// `goto destination`.
#[derive(Debug)]
pub struct GoToData {
    pub tag: SrcTag,
    pub destination: SymbolName,
}

impl GoToData {
    pub fn new(tag: SrcTag, destination: SymbolName) -> (r: GoToData)
        ensures
            r.tag == tag,
            r.destination == destination,
    {
        GoToData { tag, destination }
    }
}

/// Assembly written by the programmer.
#[derive(Debug)]
pub struct InlineAsmData {
    pub tag: SrcTag,
    pub text: String,
}

impl InlineAsmData {
    pub fn new(tag: SrcTag, text: String) -> (r: InlineAsmData)
        ensures
            r.tag == tag,
            r.text == text,
    {
        InlineAsmData { tag, text }
    }
}

/// `return value`; `value_type` is the type returned once known.
#[derive(Debug)]
pub struct ReturnData {
    pub tag: SrcTag,
    pub value_type: Option<BaseType>,
    pub value: Option<Expr>,
}

impl ReturnData {
    pub fn new(tag: SrcTag, value_type: Option<BaseType>, value: Option<Expr>) -> (r: ReturnData)
        ensures
            r.tag == tag,
            r.value_type == value_type,
            r.value == value,
    {
        ReturnData { tag, value_type, value }
    }
}

/// `while condition do body end`.
#[derive(Debug)]
pub struct WhileLoopData {
    pub tag: SrcTag,
    pub condition: Expr,
    pub body: Vec<Statement>,
}

impl WhileLoopData {
    pub fn new(tag: SrcTag, condition: Expr, body: Vec<Statement>) -> (r: WhileLoopData)
        ensures
            r.tag == tag,
            r.condition == condition,
            r.body == body,
    {
        WhileLoopData { tag, condition, body }
    }
}

/// A statement of the intermediate representation.
#[derive(Debug)]
pub enum Statement {
    Assign(AssignData),
    Break,
    Call(CallData),
    Conditional(ConditionalData),
    GoTo(GoToData),
    InlineAsm(InlineAsmData),
    Return(ReturnData),
    WhileLoop(WhileLoopData),
}

/// The code of a function, or a stretch of top-level statements.
#[derive(Debug)]
pub struct Block {
    pub name: SymbolName,
    pub symbol: SymbolRef,
    pub location: Option<Location>,
    pub body: Vec<Statement>,
    /// The function's own scope, with its parameters and locals; top-level
    /// code has none and uses the global scope.
    pub symbol_table: Option<DefaultSymbolTable>,
    pub metadata: FunctionMetadata,
    pub anonymous: bool,
}

/// The size a parameter takes in the frame; one without a size takes none.
pub open spec fn parameter_size(parameter: NameType) -> int {
    match crate::base_type::type_size(parameter.base_type) {
        Some(s) => s as int,
        None => 0,
    }
}

/// The offset in the frame of the `i`-th parameter: the sizes of the
/// parameters before it, summed in an 8-bit signed offset that wraps around.
pub open spec fn parameter_offset(parameters: Seq<NameType>, i: int) -> i8
    decreases i,
{
    if i <= 0 {
        0
    } else {
        let v = parameter_offset(parameters, i - 1) + parameter_size(parameters[i - 1]);
        if v > i8::MAX {
            (v - 256) as i8
        } else {
            v as i8
        }
    }
}

/// The scope of a function's parameters, each a variable at its offset in
/// the frame, under the handles that follow `h0`.
pub open spec fn parameter_scope(parameters: Seq<NameType>, h0: nat) -> Seq<crate::symbol_table::SymbolEntry> {
    Seq::new(
        parameters.len(),
        |i: int|
            crate::symbol_table::SymbolEntry {
                name: parameters[i].name,
                symbol_ref: handle_after(h0, i) as SymbolRef,
                symbol: crate::symbol_table::Symbol::Variable(
                    Variable {
                        base_type: parameters[i].base_type,
                        location: Location::FrameOffset(parameter_offset(parameters, i)),
                    },
                ),
            },
    )
}

/// Whether two of the parameters share a name.
pub open spec fn shares_a_name(parameters: Seq<NameType>) -> bool {
    exists|a: int, b: int|
        #![trigger parameters[a], parameters[b]]
        0 <= a < b < parameters.len() && parameters[a].name@ == parameters[b].name@
}

/// The handle given out `k` handles after `h0`, counting around past the
/// largest `usize`.
pub open spec fn handle_after(h0: nat, k: int) -> nat
    decreases k,
{
    if k <= 0 {
        h0
    } else {
        crate::symbol_table::following(handle_after(h0, k - 1))
    }
}

proof fn lemma_handle_after_value(h0: nat, k: int)
    requires
        h0 <= usize::MAX,
        0 <= k <= usize::MAX,
    ensures
        handle_after(h0, k) == if h0 + k <= usize::MAX {
            h0 + k
        } else {
            h0 + k - usize::MAX - 1
        },
    decreases k,
{
    if k > 0 {
        lemma_handle_after_value(h0, k - 1);
    }
}

proof fn lemma_handles_apart(h0: nat, j: int, i: int)
    requires
        h0 <= usize::MAX,
        0 <= j < i <= usize::MAX,
    ensures
        handle_after(h0, j) != handle_after(h0, i),
{
    lemma_handle_after_value(h0, j);
    lemma_handle_after_value(h0, i);
}

impl Block {
    /// A block for top-level code, with a fresh label in the global scope.
    pub fn new_anonymous(global_symbol_table: &mut DefaultSymbolTable) -> (r: Block)
        ensures
            r.anonymous,
            r.body@.len() == 0,
            r.location is None,
            r.symbol_table is None,
            r.symbol == old(global_symbol_table).handle(),
            r.name@ == crate::symbol_table::block_label(r.symbol),
            r.metadata.name == r.name,
            r.metadata.location is None,
            r.metadata.parameters@.len() == 0,
            r.metadata.return_type == BaseType::Void,
            r.metadata.frame_size == 0,
            final(global_symbol_table).handle() == crate::symbol_table::following(
                old(global_symbol_table).handle(),
            ),
            final(global_symbol_table).scopes() == old(global_symbol_table).scopes().update(
                0,
                crate::symbol_table::inserted(
                    old(global_symbol_table).scopes()[0],
                    r.name,
                    r.symbol,
                    crate::symbol_table::Symbol::Block,
                ),
            ),
            final(global_symbol_table).frame() == old(global_symbol_table).frame(),
    {
        proof {
            global_symbol_table.lemma_single_scope();
        }
        let (symbol_name, symbol_ref) = global_symbol_table.new_block_name();
        Block {
            name: symbol_name.clone(),
            symbol: symbol_ref,
            location: None,
            body: Vec::new(),
            symbol_table: None,
            metadata: FunctionMetadata {
                name: symbol_name,
                location: None,
                parameters: Vec::new(),
                return_type: BaseType::Void,
                frame_size: 0,
            },
            anonymous: true,
        }
    }

    /// A block for a function, with a scope of its own that holds its
    /// parameters at consecutive offsets from the start of its frame; fails
    /// when two parameters share a name.
    pub fn new_named(
        src_tag: SrcTag,
        function_ref: SymbolRef,
        parent_symbol_table: &mut DefaultSymbolTable,
        location: Option<Location>,
        metadata: FunctionMetadata,
    ) -> (r: Result<Block, Error>)
        ensures
            final(parent_symbol_table).scopes() == old(parent_symbol_table).scopes(),
            final(parent_symbol_table).frame() == old(parent_symbol_table).frame(),
            match r {
                Ok(block) => {
                    &&& !block.anonymous
                    &&& block.name == metadata.name
                    &&& block.symbol == function_ref
                    &&& block.location == location
                    &&& block.body@.len() == 0
                    &&& block.metadata == metadata
                    &&& block.symbol_table matches Some(t) && t.scopes() == seq![
                        parameter_scope(metadata.parameters@, old(parent_symbol_table).handle()),
                    ] && t.frame() == parameter_offset(metadata.parameters@, metadata.parameters@.len() as int)
                    &&& final(parent_symbol_table).handle() == handle_after(
                        old(parent_symbol_table).handle(),
                        metadata.parameters@.len() as int,
                    )
                    &&& block.symbol_table matches Some(t) && t.scopes()[0].len() == metadata.parameters@.len()
                        && forall|i: int|
                        0 <= i < metadata.parameters@.len() ==> {
                            let e = #[trigger] t.scopes()[0][i];
                            &&& e.name == metadata.parameters@[i].name
                            &&& e.symbol == crate::symbol_table::Symbol::Variable(
                                Variable {
                                    base_type: metadata.parameters@[i].base_type,
                                    location: Location::FrameOffset(parameter_offset(metadata.parameters@, i)),
                                },
                            )
                        }
                },
                Err(e) => e.0 matches ErrorKind::DuplicateSymbol(t, name) && t == src_tag && exists|a: int, b: int|
                    #![trigger metadata.parameters@[a], metadata.parameters@[b]]
                    0 <= a < b < metadata.parameters@.len() && metadata.parameters@[a].name@ == name@
                        && metadata.parameters@[b].name@ == name@,
            },
            r is Err <==> shares_a_name(metadata.parameters@),
    {
        let symbol_name = metadata.name.clone();
        let mut frame_size: i8 = 0;
        let mut k: usize = 0;
        while k < metadata.parameters.len()
            invariant
                k <= metadata.parameters@.len(),
                frame_size == parameter_offset(metadata.parameters@, k as int),
            decreases metadata.parameters.len() - k,
        {
            let size: usize = match metadata.parameters[k].base_type.size() {
                Some(s) => s,
                None => 0,
            };
            frame_size = frame_size.wrapping_add(size as i8);
            k += 1;
        }
        let mut symbol_table = DefaultSymbolTable::new(crate::symbol_table::HandleGenerator::new(), frame_size);
        proof {
            parent_symbol_table.lemma_handle_fits();
        }
        let ghost h0 = parent_symbol_table.handle();
        let handles = parent_symbol_table.take_handle_gen();
        symbol_table.restore_handle_gen(handles);

        let mut frame_offset: i8 = 0;
        let mut i: usize = 0;
        while i < metadata.parameters.len()
            invariant
                i <= metadata.parameters@.len(),
                symbol_table.scopes().len() == 1,
                symbol_table.scopes()[0].len() == i,
                frame_offset == parameter_offset(metadata.parameters@, i as int),
                h0 <= usize::MAX,
                h0 == old(parent_symbol_table).handle(),
                symbol_table.frame() == parameter_offset(metadata.parameters@, metadata.parameters@.len() as int),
                symbol_table.handle() == handle_after(h0, i as int),
                forall|j: int| 0 <= j < i ==> (#[trigger] symbol_table.scopes()[0][j]).symbol_ref == handle_after(h0, j),
                forall|a: int, b: int|
                    #![trigger metadata.parameters@[a], metadata.parameters@[b]]
                    0 <= a < b < i ==> metadata.parameters@[a].name@ != metadata.parameters@[b].name@,
                parent_symbol_table.scopes() == old(parent_symbol_table).scopes(),
                parent_symbol_table.frame() == old(parent_symbol_table).frame(),
                forall|j: int|
                    0 <= j < i ==> {
                        let e = #[trigger] symbol_table.scopes()[0][j];
                        &&& e.name == metadata.parameters@[j].name
                        &&& e.symbol == crate::symbol_table::Symbol::Variable(
                            Variable {
                                base_type: metadata.parameters@[j].base_type,
                                location: Location::FrameOffset(parameter_offset(metadata.parameters@, j)),
                            },
                        )
                    },
            decreases metadata.parameters.len() - i,
        {
            let parameter = &metadata.parameters[i];
            let name = parameter.name.clone();
            let variable = Variable::new(parameter.base_type.clone(), Location::FrameOffset(frame_offset));
            let ghost before = symbol_table.scopes()[0];
            proof {
                symbol_table.lemma_scopes();
            }
            proof {
                let entries = symbol_table.scopes()[0];
                let h = symbol_table.handle() as SymbolRef;
                assert forall|j: int| 0 <= j < i implies entries[j].symbol_ref != h by {
                    lemma_handles_apart(h0, j, i as int);
                }
                crate::symbol_table::lemma_entry_with_ref_first(entries, h, i as int);
                if exists|j: int| 0 <= j < i && (#[trigger] metadata.parameters@[j]).name@ == name@ {
                    let j = choose|j: int| 0 <= j < i && (#[trigger] metadata.parameters@[j]).name@ == name@;
                    assert(entries[j].name == metadata.parameters@[j].name);
                    crate::symbol_table::lemma_named_found(entries, name@, j);
                } else {
                    assert forall|j: int| 0 <= j < i implies entries[j].name@ != name@ by {
                        assert(entries[j].name == metadata.parameters@[j].name);
                    }
                    crate::symbol_table::lemma_entry_named_first(entries, name@, i as int);
                }
            }
            let inserted_ref = symbol_table.insert_variable(name.clone(), variable.clone());
            if inserted_ref.is_none() {
                let handles = symbol_table.take_handle_gen();
                parent_symbol_table.restore_handle_gen(handles);
                return Err(Error(ErrorKind::DuplicateSymbol(src_tag, name)));
            }
            let size: usize = match parameter.base_type.size() {
                Some(s) => s,
                None => 0,
            };
            proof {
                assert(symbol_table.scopes()[0] =~= before.push(
                    crate::symbol_table::SymbolEntry {
                        name: name,
                        symbol_ref: inserted_ref.unwrap(),
                        symbol: crate::symbol_table::Symbol::Variable(variable),
                    },
                ));
            }
            frame_offset = frame_offset.wrapping_add(size as i8);
            i += 1;
        }
        let handles = symbol_table.take_handle_gen();
        parent_symbol_table.restore_handle_gen(handles);
        proof {
            symbol_table.lemma_single_scope();
            assert(symbol_table.scopes()[0] =~= parameter_scope(metadata.parameters@, h0));
            assert(symbol_table.scopes() =~= seq![parameter_scope(metadata.parameters@, h0)]);
        }

        Ok(Block {
            name: symbol_name,
            symbol: function_ref,
            location: location,
            symbol_table: Some(symbol_table),
            body: Vec::new(),
            metadata: metadata,
            anonymous: false,
        })
    }

    pub fn is_empty_anonymous(&self) -> (r: bool)
        ensures
            r == (self.anonymous && self.body@.len() == 0),
    {
        self.anonymous && self.body.len() == 0
    }
}

} // verus!
