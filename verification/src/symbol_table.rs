use vstd::prelude::*;
use crate::base_type::{type_size, BaseType};
use crate::parse::ast::NameType;
use crate::text::{decimal_text, hex_text, push_char, push_decimal, push_hex};

verus! {

/// The handle of a symbol: a number unique across the whole program.
pub type SymbolRef = usize;

/// The name of a symbol.
pub type SymbolName = String;

/// Where a variable lives.
#[derive(Debug, Copy, Clone, Eq, PartialEq, Structural)]
pub enum Location {
    UndeterminedGlobal,
    Global(u16),
    FrameOffset(i8),
}

/// What is known about a function.
#[derive(Debug)]
pub struct FunctionMetadata {
    pub name: SymbolName,
    pub location: Option<Location>,
    pub parameters: Vec<NameType>,
    pub return_type: BaseType,
    pub frame_size: i8,
}

impl FunctionMetadata {
    /// A copy of the metadata.
    pub fn duplicate(&self) -> (r: FunctionMetadata)
        ensures
            r.name == self.name,
            r.location == self.location,
            r.parameters@ == self.parameters@,
            r.return_type == self.return_type,
            r.frame_size == self.frame_size,
    {
        FunctionMetadata {
            name: self.name.clone(),
            location: self.location,
            parameters: clone_parameters(&self.parameters),
            return_type: self.return_type.clone(),
            frame_size: self.frame_size,
        }
    }
}

/// A copy of a list of parameters.
pub fn clone_parameters(parameters: &Vec<NameType>) -> (r: Vec<NameType>)
    ensures
        r@ == parameters@,
{
    let mut result: Vec<NameType> = Vec::new();
    let mut i: usize = 0;
    while i < parameters.len()
        invariant
            i <= parameters@.len(),
            result@ == parameters@.take(i as int),
        decreases parameters@.len() - i,
    {
        result.push(parameters[i].clone());
        i += 1;
        assert(result@ =~= parameters@.take(i as int));
    }
    assert(parameters@.take(i as int) =~= parameters@);
    result
}

/// A variable: its type and where it lives.
#[derive(Debug)]
pub struct Variable {
    pub base_type: BaseType,
    pub location: Location,
}

impl Variable {
    pub fn new(base_type: BaseType, location: Location) -> (r: Variable)
        ensures
            r.base_type == base_type,
            r.location == location,
    {
        Variable { base_type, location }
    }
}

impl Clone for Variable {
    fn clone(&self) -> (r: Variable)
        ensures
            r == *self,
    {
        Variable { base_type: self.base_type.clone(), location: self.location }
    }
}

/// The value of a constant: a number, or bytes of data such as a text.
#[derive(Debug)]
pub enum ConstantValue {
    Number(i32),
    Bytes(Vec<u8>),
}

impl ConstantValue {
    pub fn number(&self) -> (r: i32)
        requires
            *self is Number,
        ensures
            *self == ConstantValue::Number(r),
    {
        match self {
            ConstantValue::Number(num) => *num,
            _ => vstd::pervasive::unreached(),
        }
    }
}

/// A constant: its type and value.
#[derive(Debug)]
pub struct Constant {
    pub base_type: BaseType,
    pub value: ConstantValue,
}

impl Constant {
    pub fn new(base_type: BaseType, value: ConstantValue) -> (r: Constant)
        ensures
            r.base_type == base_type,
            r.value == value,
    {
        Constant { base_type, value }
    }
}

/// What a name stands for.
#[derive(Debug)]
pub enum Symbol {
    Constant(Constant),
    Variable(Variable),
    Function(FunctionMetadata),
    Block,
}

/// A symbol with its name and handle.
#[derive(Debug)]
pub struct SymbolEntry {
    pub name: SymbolName,
    pub symbol_ref: SymbolRef,
    pub symbol: Symbol,
}

/// The first entry with the given name.
pub open spec fn entry_named(entries: Seq<SymbolEntry>, name: Seq<char>) -> Option<SymbolEntry>
    decreases entries.len(),
{
    if entries.len() == 0 {
        None
    } else {
        match entry_named(entries.drop_last(), name) {
            Some(e) => Some(e),
            None => if entries.last().name@ == name {
                Some(entries.last())
            } else {
                None
            },
        }
    }
}

/// The first entry with the given handle.
pub open spec fn entry_with_ref(entries: Seq<SymbolEntry>, r: SymbolRef) -> Option<SymbolEntry>
    decreases entries.len(),
{
    if entries.len() == 0 {
        None
    } else {
        match entry_with_ref(entries.drop_last(), r) {
            Some(e) => Some(e),
            None => if entries.last().symbol_ref == r {
                Some(entries.last())
            } else {
                None
            },
        }
    }
}

/// The entries after inserting a symbol, which happens only when neither
/// its name nor its handle is taken yet.
pub open spec fn inserted(entries: Seq<SymbolEntry>, name: SymbolName, r: SymbolRef, s: Symbol) -> Seq<
    SymbolEntry,
> {
    if insertable(entries, name@, r) {
        entries.push(SymbolEntry { name, symbol_ref: r, symbol: s })
    } else {
        entries
    }
}

/// Whether neither the name nor the handle is taken yet.
pub open spec fn insertable(entries: Seq<SymbolEntry>, name: Seq<char>, r: SymbolRef) -> bool {
    entry_named(entries, name) is None && entry_with_ref(entries, r) is None
}

/// The first answer that one of the scopes gives, innermost first.
pub open spec fn first_answer<A>(
    scopes: Seq<Seq<SymbolEntry>>,
    f: spec_fn(Seq<SymbolEntry>) -> Option<A>,
) -> Option<A>
    decreases scopes.len(),
{
    if scopes.len() == 0 {
        None
    } else {
        match f(scopes[0]) {
            Some(a) => Some(a),
            None => first_answer(scopes.drop_first(), f),
        }
    }
}

/// The symbol visible under a name: the one of the innermost scope that has it.
pub open spec fn visible_named(scopes: Seq<Seq<SymbolEntry>>, name: Seq<char>) -> Option<
    SymbolEntry,
> {
    first_answer(scopes, |e: Seq<SymbolEntry>| entry_named(e, name))
}

/// The symbol visible under a handle.
pub open spec fn visible_with_ref(scopes: Seq<Seq<SymbolEntry>>, r: SymbolRef) -> Option<
    SymbolEntry,
> {
    first_answer(scopes, |e: Seq<SymbolEntry>| entry_with_ref(e, r))
}

/// The constant that an entry holds, if it holds one.
pub open spec fn as_constant(e: Option<SymbolEntry>) -> Option<Constant> {
    match e {
        Some(SymbolEntry { symbol: Symbol::Constant(c), .. }) => Some(c),
        _ => None,
    }
}

/// The variable that an entry holds, if it holds one.
pub open spec fn as_variable(e: Option<SymbolEntry>) -> Option<Variable> {
    match e {
        Some(SymbolEntry { symbol: Symbol::Variable(v), .. }) => Some(v),
        _ => None,
    }
}

/// The function that an entry holds, if it holds one.
pub open spec fn as_function(e: Option<SymbolEntry>) -> Option<FunctionMetadata> {
    match e {
        Some(SymbolEntry { symbol: Symbol::Function(f), .. }) => Some(f),
        _ => None,
    }
}

/// The type of the value that an entry stands for: a constant's or
/// variable's type, a function's return type; a block has none.
pub open spec fn type_of_entry(e: Option<SymbolEntry>) -> Option<BaseType> {
    match e {
        Some(SymbolEntry { symbol: Symbol::Constant(c), .. }) => Some(c.base_type),
        Some(SymbolEntry { symbol: Symbol::Variable(v), .. }) => Some(v.base_type),
        Some(SymbolEntry { symbol: Symbol::Function(f), .. }) => Some(f.return_type),
        _ => None,
    }
}

/// The constant visible under a name: in the innermost scope whose entry of
/// that name is a constant.
pub open spec fn constant_named(scopes: Seq<Seq<SymbolEntry>>, name: Seq<char>) -> Option<Constant> {
    first_answer(scopes, |e: Seq<SymbolEntry>| as_constant(entry_named(e, name)))
}

pub open spec fn constant_with_ref(scopes: Seq<Seq<SymbolEntry>>, r: SymbolRef) -> Option<Constant> {
    first_answer(scopes, |e: Seq<SymbolEntry>| as_constant(entry_with_ref(e, r)))
}

pub open spec fn variable_named(scopes: Seq<Seq<SymbolEntry>>, name: Seq<char>) -> Option<Variable> {
    first_answer(scopes, |e: Seq<SymbolEntry>| as_variable(entry_named(e, name)))
}

pub open spec fn variable_with_ref(scopes: Seq<Seq<SymbolEntry>>, r: SymbolRef) -> Option<Variable> {
    first_answer(scopes, |e: Seq<SymbolEntry>| as_variable(entry_with_ref(e, r)))
}

pub open spec fn function_named(scopes: Seq<Seq<SymbolEntry>>, name: Seq<char>) -> Option<
    FunctionMetadata,
> {
    first_answer(scopes, |e: Seq<SymbolEntry>| as_function(entry_named(e, name)))
}

pub open spec fn function_with_ref(scopes: Seq<Seq<SymbolEntry>>, r: SymbolRef) -> Option<
    FunctionMetadata,
> {
    first_answer(scopes, |e: Seq<SymbolEntry>| as_function(entry_with_ref(e, r)))
}

/// The type of the symbol with a handle, from the innermost scope that
/// knows a type for it.
pub open spec fn type_with_ref(scopes: Seq<Seq<SymbolEntry>>, r: SymbolRef) -> Option<BaseType> {
    first_answer(scopes, |e: Seq<SymbolEntry>| type_of_entry(entry_with_ref(e, r)))
}

/// The type of the symbol with a name, from the innermost scope that knows
/// a type for the handle that the name has there.
pub open spec fn type_named(scopes: Seq<Seq<SymbolEntry>>, name: Seq<char>) -> Option<BaseType> {
    first_answer(
        scopes,
        |e: Seq<SymbolEntry>|
            match entry_named(e, name) {
                Some(n) => type_of_entry(entry_with_ref(e, n.symbol_ref)),
                None => None,
            },
    )
}

/// The variables of a scope, in the order they were declared.
pub open spec fn scope_variables(entries: Seq<SymbolEntry>) -> Seq<Variable>
    decreases entries.len(),
{
    if entries.len() == 0 {
        Seq::empty()
    } else {
        let rest = scope_variables(entries.drop_last());
        match entries.last().symbol {
            Symbol::Variable(v) => rest.push(v),
            _ => rest,
        }
    }
}

/// The data constants of a scope with their handles, in the order they were
/// declared.
pub open spec fn scope_data(entries: Seq<SymbolEntry>) -> Seq<(SymbolRef, Seq<u8>)>
    decreases entries.len(),
{
    if entries.len() == 0 {
        Seq::empty()
    } else {
        let rest = scope_data(entries.drop_last());
        match entries.last().symbol {
            Symbol::Constant(Constant { value: ConstantValue::Bytes(b), .. }) => rest.push(
                (entries.last().symbol_ref, b@),
            ),
            _ => rest,
        }
    }
}

/// The label of the block with a handle: `__L`, six hexadecimal digits, `_`.
pub open spec fn block_label(h: SymbolRef) -> Seq<char> {
    seq!['_', '_', 'L'] + hex_text(h as nat, 6) + seq!['_']
}

/// The name of an unnamed constant: `__UC`, six hexadecimal digits, `_`.
pub open spec fn unnamed_constant_label(h: SymbolRef) -> Seq<char> {
    seq!['_', '_', 'U', 'C'] + hex_text(h as nat, 6) + seq!['_']
}

/// The decimal text of a signed number.
pub open spec fn signed_text(v: int) -> Seq<char> {
    if v < 0 {
        seq!['-'] + decimal_text((-v) as nat)
    } else {
        decimal_text(v as nat)
    }
}

/// The name of the temporary at a frame offset: `tmp#` and the offset.
pub open spec fn temporary_label(offset: i8) -> Seq<char> {
    seq!['t', 'm', 'p', '#'] + signed_text(offset as int)
}

/// The handle after `h`.
pub open spec fn following(h: nat) -> nat {
    if h < usize::MAX {
        h + 1
    } else {
        0
    }
}

/// Hands out handles, counting up.
#[derive(Debug)]
pub struct HandleGenerator {
    next_handle: usize,
}

impl HandleGenerator {
    pub fn new() -> (r: HandleGenerator)
        ensures
            r.next() == 0,
    {
        HandleGenerator { next_handle: 0 }
    }

    /// The handle that comes next.
    pub closed spec fn next(&self) -> nat {
        self.next_handle as nat
    }

    /// Returns the next handle and moves past it; the count wraps around
    /// after the largest `usize`.
    pub fn new_handle(&mut self) -> (r: usize)
        ensures
            r == old(self).next(),
            final(self).next() == following(old(self).next()),
    {
        let result = self.next_handle;
        self.next_handle = self.next_handle.wrapping_add(1);
        result
    }
}

fn label_with_hex(prefix_uc: bool, h: SymbolRef) -> (r: SymbolName)
    ensures
        prefix_uc ==> r@ == unnamed_constant_label(h),
        !prefix_uc ==> r@ == block_label(h),
{
    let mut s = String::new();
    push_char(&mut s, '_');
    push_char(&mut s, '_');
    if prefix_uc {
        push_char(&mut s, 'U');
        push_char(&mut s, 'C');
    } else {
        push_char(&mut s, 'L');
    }
    push_hex(&mut s, h as u64, 6);
    push_char(&mut s, '_');
    if prefix_uc {
        assert(s@ =~= unnamed_constant_label(h));
    } else {
        assert(s@ =~= block_label(h));
    }
    s
}

fn temporary_name(offset: i8) -> (r: SymbolName)
    ensures
        r@ == temporary_label(offset),
{
    let mut s = String::new();
    push_char(&mut s, 't');
    push_char(&mut s, 'm');
    push_char(&mut s, 'p');
    push_char(&mut s, '#');
    if offset < 0 {
        push_char(&mut s, '-');
        push_decimal(&mut s, (-(offset as i64)) as u64);
    } else {
        push_decimal(&mut s, offset as u64);
    }
    assert(s@ =~= temporary_label(offset));
    s
}

/// The symbols of one scope.
#[derive(Debug)]
struct SymbolMap {
    entries: Vec<SymbolEntry>,
}

/// A name that some entry holds is found.
pub(crate) proof fn lemma_named_found(entries: Seq<SymbolEntry>, name: Seq<char>, j: int)
    requires
        0 <= j < entries.len(),
        entries[j].name@ == name,
    ensures
        entry_named(entries, name) is Some,
    decreases entries.len(),
{
    if j < entries.len() - 1 {
        lemma_named_found(entries.drop_last(), name, j);
    }
}

pub(crate) proof fn lemma_entry_named_first(entries: Seq<SymbolEntry>, name: Seq<char>, i: int)
    requires
        0 <= i <= entries.len(),
        forall|j: int| 0 <= j < i ==> entries[j].name@ != name,
    ensures
        i < entries.len() && entries[i].name@ == name ==> entry_named(entries, name) == Some(
            entries[i],
        ),
        i == entries.len() ==> entry_named(entries, name) is None,
    decreases entries.len(),
{
    if entries.len() > 0 {
        if i < entries.len() - 1 || i == entries.len() {
            let k = if i == entries.len() {
                i - 1
            } else {
                i
            };
            lemma_entry_named_first(entries.drop_last(), name, k);
        } else {
            lemma_entry_named_first(entries.drop_last(), name, i);
        }
    }
}

pub(crate) proof fn lemma_entry_with_ref_first(entries: Seq<SymbolEntry>, r: SymbolRef, i: int)
    requires
        0 <= i <= entries.len(),
        forall|j: int| 0 <= j < i ==> entries[j].symbol_ref != r,
    ensures
        i < entries.len() && entries[i].symbol_ref == r ==> entry_with_ref(entries, r) == Some(
            entries[i],
        ),
        i == entries.len() ==> entry_with_ref(entries, r) is None,
    decreases entries.len(),
{
    if entries.len() > 0 {
        if i == entries.len() {
            lemma_entry_with_ref_first(entries.drop_last(), r, i - 1);
        } else {
            lemma_entry_with_ref_first(entries.drop_last(), r, i);
        }
    }
}

impl SymbolMap {
    fn new() -> (r: SymbolMap)
        ensures
            r.entries@ == Seq::<SymbolEntry>::empty(),
    {
        SymbolMap { entries: Vec::new() }
    }

    fn index_of_name(&self, name: &SymbolName) -> (r: Option<usize>)
        ensures
            match r {
                Some(i) => i < self.entries@.len() && entry_named(self.entries@, name@) == Some(
                    self.entries@[i as int],
                ),
                None => entry_named(self.entries@, name@) is None,
            },
    {
        let mut i: usize = 0;
        while i < self.entries.len()
            invariant
                i <= self.entries@.len(),
                forall|j: int| 0 <= j < i ==> self.entries@[j].name@ != name@,
            decreases self.entries.len() - i,
        {
            if self.entries[i].name == *name {
                proof {
                    lemma_entry_named_first(self.entries@, name@, i as int);
                }
                return Some(i);
            }
            i += 1;
        }
        proof {
            lemma_entry_named_first(self.entries@, name@, i as int);
        }
        None
    }

    fn index_of_ref(&self, symbol_ref: SymbolRef) -> (r: Option<usize>)
        ensures
            match r {
                Some(i) => i < self.entries@.len() && entry_with_ref(self.entries@, symbol_ref)
                    == Some(self.entries@[i as int]),
                None => entry_with_ref(self.entries@, symbol_ref) is None,
            },
    {
        let mut i: usize = 0;
        while i < self.entries.len()
            invariant
                i <= self.entries@.len(),
                forall|j: int| 0 <= j < i ==> self.entries@[j].symbol_ref != symbol_ref,
            decreases self.entries.len() - i,
        {
            if self.entries[i].symbol_ref == symbol_ref {
                proof {
                    lemma_entry_with_ref_first(self.entries@, symbol_ref, i as int);
                }
                return Some(i);
            }
            i += 1;
        }
        proof {
            lemma_entry_with_ref_first(self.entries@, symbol_ref, i as int);
        }
        None
    }

    fn insert(&mut self, name: SymbolName, reference: SymbolRef, symbol: Symbol) -> (r: Option<
        SymbolRef,
    >)
        ensures
            final(self).entries@ == inserted(old(self).entries@, name, reference, symbol),
            r == if insertable(old(self).entries@, name@, reference) {
                Some(reference)
            } else {
                None::<SymbolRef>
            },
    {
        if self.index_of_name(&name).is_some() || self.index_of_ref(reference).is_some() {
            None
        } else {
            self.entries.push(SymbolEntry { name, symbol_ref: reference, symbol });
            Some(reference)
        }
    }

    fn find_by_name(&self, name: &SymbolName) -> (r: Option<&SymbolEntry>)
        ensures
            match r {
                Some(e) => entry_named(self.entries@, name@) == Some(*e),
                None => entry_named(self.entries@, name@) is None,
            },
    {
        match self.index_of_name(name) {
            Some(i) => Some(&self.entries[i]),
            None => None,
        }
    }

    fn find_by_ref(&self, symbol_ref: SymbolRef) -> (r: Option<&SymbolEntry>)
        ensures
            match r {
                Some(e) => entry_with_ref(self.entries@, symbol_ref) == Some(*e),
                None => entry_with_ref(self.entries@, symbol_ref) is None,
            },
    {
        match self.index_of_ref(symbol_ref) {
            Some(i) => Some(&self.entries[i]),
            None => None,
        }
    }

    fn variables(&self) -> (r: Vec<Variable>)
        ensures
            r@ == scope_variables(self.entries@),
    {
        let mut result: Vec<Variable> = Vec::new();
        let mut i: usize = 0;
        while i < self.entries.len()
            invariant
                i <= self.entries@.len(),
                result@ == scope_variables(self.entries@.take(i as int)),
            decreases self.entries.len() - i,
        {
            proof {
                assert(self.entries@.take(i + 1).drop_last() =~= self.entries@.take(i as int));
            }
            if let Symbol::Variable(v) = &self.entries[i].symbol {
                result.push(v.clone());
            }
            i += 1;
        }
        assert(self.entries@.take(i as int) =~= self.entries@);
        result
    }

    fn data_constants(&self) -> (r: Vec<(SymbolRef, Vec<u8>)>)
        ensures
            r@.len() == scope_data(self.entries@).len(),
            forall|k: int|
                0 <= k < r@.len() ==> (#[trigger] r@[k]).0 == scope_data(self.entries@)[k].0
                    && r@[k].1@ == scope_data(self.entries@)[k].1,
    {
        let mut result: Vec<(SymbolRef, Vec<u8>)> = Vec::new();
        let mut i: usize = 0;
        while i < self.entries.len()
            invariant
                i <= self.entries@.len(),
                result@.len() == scope_data(self.entries@.take(i as int)).len(),
                forall|k: int|
                    0 <= k < result@.len() ==> (#[trigger] result@[k]).0 == scope_data(
                        self.entries@.take(i as int),
                    )[k].0 && result@[k].1@ == scope_data(self.entries@.take(i as int))[k].1,
            decreases self.entries.len() - i,
        {
            proof {
                assert(self.entries@.take(i + 1).drop_last() =~= self.entries@.take(i as int));
            }
            if let Symbol::Constant(c) = &self.entries[i].symbol {
                if let ConstantValue::Bytes(bytes) = &c.value {
                    let mut copy: Vec<u8> = Vec::new();
                    let mut k: usize = 0;
                    while k < bytes.len()
                        invariant
                            k <= bytes@.len(),
                            copy@ == bytes@.take(k as int),
                        decreases bytes.len() - k,
                    {
                        copy.push(bytes[k]);
                        k += 1;
                        assert(copy@ =~= bytes@.take(k as int));
                    }
                    assert(copy@ =~= bytes@);
                    result.push((self.entries[i].symbol_ref, copy));
                }
            }
            i += 1;
        }
        assert(self.entries@.take(i as int) =~= self.entries@);
        result
    }
}


/// A table of symbols, organized in nested scopes: lookups search the
/// innermost scope first, new local symbols go into the innermost scope and
/// block labels into the outermost one.
pub trait SymbolTable {
    /// The scopes, innermost first.
    spec fn scopes(&self) -> Seq<Seq<SymbolEntry>>;

    /// The handle that comes next.
    spec fn handle(&self) -> nat;

    /// The next free offset in the innermost scope's stack frame.
    spec fn frame(&self) -> i8;

    /// The next free offsets in the frames of the tables around this one,
    /// which only they move: none for a table of its own, the enclosing
    /// table's for one nested in it.
    spec fn outer_frames(&self) -> Seq<i8>;

    proof fn lemma_scopes(&self)
        ensures
            self.scopes().len() >= 1,
            self.handle() <= usize::MAX,
    ;

    fn new_handle(&mut self) -> (r: SymbolRef)
        ensures
            final(self).outer_frames() == old(self).outer_frames(),
            r == old(self).handle(),
            final(self).handle() == following(old(self).handle()),
            final(self).scopes() == old(self).scopes(),
            final(self).frame() == old(self).frame(),
    ;

    /// Creates a label for a new block in the outermost scope.
    fn new_block_name(&mut self) -> (r: (SymbolName, SymbolRef))
        ensures
            final(self).outer_frames() == old(self).outer_frames(),
            r.1 == old(self).handle(),
            r.0@ == block_label(r.1),
            final(self).handle() == following(old(self).handle()),
            final(self).scopes() == old(self).scopes().update(
                old(self).scopes().len() - 1,
                inserted(old(self).scopes().last(), r.0, r.1, Symbol::Block),
            ),
            final(self).frame() == old(self).frame(),
    ;

    /// Declares a block label in the outermost scope.
    fn insert_block(&mut self, symbol_name: SymbolName) -> (r: Option<SymbolRef>)
        ensures
            final(self).outer_frames() == old(self).outer_frames(),
            final(self).handle() == following(old(self).handle()),
            final(self).scopes() == old(self).scopes().update(
                old(self).scopes().len() - 1,
                inserted(old(self).scopes().last(), symbol_name, old(self).handle() as SymbolRef, Symbol::Block),
            ),
            r == if insertable(old(self).scopes().last(), symbol_name@, old(self).handle() as SymbolRef) {
                Some(old(self).handle() as SymbolRef)
            } else {
                None::<SymbolRef>
            },
            final(self).frame() == old(self).frame(),
    ;

    fn has_symbol(&self, symbol_name: &SymbolName) -> (r: bool)
        ensures
            r == visible_named(self.scopes(), symbol_name@) is Some,
    ;

    fn find_symbol(&self, symbol_name: &SymbolName) -> (r: Option<SymbolRef>)
        ensures
            r == match visible_named(self.scopes(), symbol_name@) {
                Some(e) => Some(e.symbol_ref),
                None => None::<SymbolRef>,
            },
    ;

    fn get_symbol_name(&self, symbol_ref: SymbolRef) -> (r: Option<SymbolName>)
        ensures
            r == match visible_with_ref(self.scopes(), symbol_ref) {
                Some(e) => Some(e.name),
                None => None::<SymbolName>,
            },
    ;

    /// Reserves `local_size` bytes of the innermost frame and returns their
    /// offset; offsets wrap around as an `i8` does.
    fn next_frame_offset(&mut self, local_size: usize) -> (r: i8)
        ensures
            final(self).outer_frames() == old(self).outer_frames(),
            r == old(self).frame(),
            final(self).frame() == old(self).frame().wrapping_add(local_size as i8),
            final(self).scopes() == old(self).scopes(),
            final(self).handle() == old(self).handle(),
    ;

    /// Declares a temporary variable of the given type in the next free
    /// place of the innermost frame.
    fn create_temporary(&mut self, base_type: &BaseType) -> (r: SymbolRef)
        requires
            type_size(*base_type) is Some,
        ensures
            final(self).outer_frames() == old(self).outer_frames(),
            r == old(self).handle(),
            final(self).handle() == following(old(self).handle()),
            final(self).frame() == old(self).frame().wrapping_add(type_size(*base_type)->0 as i8),
            exists|name: SymbolName|
                name@ == temporary_label(old(self).frame()) && final(self).scopes() == old(
                    self,
                ).scopes().update(
                    0,
                    inserted(
                        old(self).scopes()[0],
                        name,
                        r,
                        Symbol::Variable(Variable { base_type: *base_type, location: Location::FrameOffset(old(self).frame()) }),
                    ),
                ),
    ;

    /// Declares a temporary and returns where it lives.
    fn create_temporary_location(&mut self, base_type: &BaseType) -> (r: Location)
        requires
            type_size(*base_type) is Some,
        ensures
            final(self).outer_frames() == old(self).outer_frames(),
            r == Location::FrameOffset(old(self).frame()),
            final(self).handle() == following(old(self).handle()),
            final(self).frame() == old(self).frame().wrapping_add(type_size(*base_type)->0 as i8),
            exists|name: SymbolName|
                name@ == temporary_label(old(self).frame()) && final(self).scopes() == old(
                    self,
                ).scopes().update(
                    0,
                    inserted(
                        old(self).scopes()[0],
                        name,
                        old(self).handle() as SymbolRef,
                        Symbol::Variable(Variable { base_type: *base_type, location: r }),
                    ),
                ),
    ;

    fn insert_constant(&mut self, symbol_name: SymbolName, base_type: &BaseType, value: ConstantValue) -> (r: Option<SymbolRef>)
        ensures
            final(self).outer_frames() == old(self).outer_frames(),
            final(self).handle() == following(old(self).handle()),
            final(self).frame() == old(self).frame(),
            final(self).scopes() == old(self).scopes().update(
                0,
                inserted(
                    old(self).scopes()[0],
                    symbol_name,
                    old(self).handle() as SymbolRef,
                    Symbol::Constant(Constant { base_type: *base_type, value }),
                ),
            ),
            r == if insertable(old(self).scopes()[0], symbol_name@, old(self).handle() as SymbolRef) {
                Some(old(self).handle() as SymbolRef)
            } else {
                None::<SymbolRef>
            },
    ;

    /// Declares a constant under a generated name, `__UC` and the hexadecimal
    /// digits of a handle taken for it.
    fn insert_unnamed_constant(&mut self, base_type: &BaseType, value: ConstantValue) -> (r: Option<SymbolRef>)
        ensures
            final(self).outer_frames() == old(self).outer_frames(),
            final(self).handle() == following(following(old(self).handle())),
            final(self).frame() == old(self).frame(),
            exists|name: SymbolName|
                name@ == unnamed_constant_label(old(self).handle() as SymbolRef) && final(self).scopes()
                    == old(self).scopes().update(
                    0,
                    inserted(
                        old(self).scopes()[0],
                        name,
                        following(old(self).handle()) as SymbolRef,
                        Symbol::Constant(Constant { base_type: *base_type, value }),
                    ),
                ) && r == if insertable(
                    old(self).scopes()[0],
                    name@,
                    following(old(self).handle()) as SymbolRef,
                ) {
                    Some(following(old(self).handle()) as SymbolRef)
                } else {
                    None::<SymbolRef>
                },
    ;

    fn constant_by_name(&self, symbol_name: &SymbolName) -> (r: Option<&Constant>)
        ensures
            match r {
                Some(c) => constant_named(self.scopes(), symbol_name@) == Some(*c),
                None => constant_named(self.scopes(), symbol_name@) is None,
            },
    ;

    fn constant(&self, symbol_ref: SymbolRef) -> (r: Option<&Constant>)
        ensures
            match r {
                Some(c) => constant_with_ref(self.scopes(), symbol_ref) == Some(*c),
                None => constant_with_ref(self.scopes(), symbol_ref) is None,
            },
    ;

    fn insert_function(&mut self, symbol_name: SymbolName, metadata: FunctionMetadata) -> (r: Option<SymbolRef>)
        ensures
            final(self).outer_frames() == old(self).outer_frames(),
            final(self).handle() == following(old(self).handle()),
            final(self).frame() == old(self).frame(),
            final(self).scopes() == old(self).scopes().update(
                0,
                inserted(old(self).scopes()[0], symbol_name, old(self).handle() as SymbolRef, Symbol::Function(metadata)),
            ),
            r == if insertable(old(self).scopes()[0], symbol_name@, old(self).handle() as SymbolRef) {
                Some(old(self).handle() as SymbolRef)
            } else {
                None::<SymbolRef>
            },
    ;

    fn function_by_name(&self, symbol_name: &SymbolName) -> (r: Option<&FunctionMetadata>)
        ensures
            match r {
                Some(f) => function_named(self.scopes(), symbol_name@) == Some(*f),
                None => function_named(self.scopes(), symbol_name@) is None,
            },
    ;

    fn function(&self, symbol_ref: SymbolRef) -> (r: Option<&FunctionMetadata>)
        ensures
            match r {
                Some(f) => function_with_ref(self.scopes(), symbol_ref) == Some(*f),
                None => function_with_ref(self.scopes(), symbol_ref) is None,
            },
    ;

    fn insert_variable(&mut self, symbol_name: SymbolName, variable: Variable) -> (r: Option<SymbolRef>)
        ensures
            final(self).outer_frames() == old(self).outer_frames(),
            final(self).handle() == following(old(self).handle()),
            final(self).frame() == old(self).frame(),
            final(self).scopes() == old(self).scopes().update(
                0,
                inserted(old(self).scopes()[0], symbol_name, old(self).handle() as SymbolRef, Symbol::Variable(variable)),
            ),
            r == if insertable(old(self).scopes()[0], symbol_name@, old(self).handle() as SymbolRef) {
                Some(old(self).handle() as SymbolRef)
            } else {
                None::<SymbolRef>
            },
    ;

    fn variable_by_name(&self, symbol_name: &SymbolName) -> (r: Option<&Variable>)
        ensures
            match r {
                Some(v) => variable_named(self.scopes(), symbol_name@) == Some(*v),
                None => variable_named(self.scopes(), symbol_name@) is None,
            },
    ;

    fn variable(&self, symbol_ref: SymbolRef) -> (r: Option<&Variable>)
        ensures
            match r {
                Some(v) => variable_with_ref(self.scopes(), symbol_ref) == Some(*v),
                None => variable_with_ref(self.scopes(), symbol_ref) is None,
            },
    ;

    /// The variables of the innermost scope.
    fn variables(&self) -> (r: Vec<Variable>)
        ensures
            r@ == scope_variables(self.scopes()[0]),
    ;

    /// The data constants of the innermost scope, with their handles.
    fn data_constants(&self) -> (r: Vec<(SymbolRef, Vec<u8>)>)
        ensures
            r@.len() == scope_data(self.scopes()[0]).len(),
            forall|k: int|
                0 <= k < r@.len() ==> (#[trigger] r@[k]).0 == scope_data(self.scopes()[0])[k].0
                    && r@[k].1@ == scope_data(self.scopes()[0])[k].1,
    ;

    fn type_of(&self, symbol_ref: SymbolRef) -> (r: Option<BaseType>)
        ensures
            r == type_with_ref(self.scopes(), symbol_ref),
    ;

    fn type_of_by_name(&self, symbol_name: &SymbolName) -> (r: Option<BaseType>)
        ensures
            r == type_named(self.scopes(), symbol_name@),
    ;
}

/// A single scope of symbols, which hands out handles of its own.
#[derive(Debug)]
pub struct DefaultSymbolTable {
    handle_gen: HandleGenerator,
    symbols: SymbolMap,
    next_frame_offset: i8,
}

impl DefaultSymbolTable {
    pub fn new(handle_gen: HandleGenerator, next_frame_offset: i8) -> (r: DefaultSymbolTable)
        ensures
            r.scopes() == seq![Seq::<SymbolEntry>::empty()],
            r.handle() == handle_gen.next(),
            r.frame() == next_frame_offset,
    {
        DefaultSymbolTable { handle_gen, symbols: SymbolMap::new(), next_frame_offset }
    }

    /// A table of its own has exactly one scope.
    pub proof fn lemma_single_scope(&self)
        ensures
            self.scopes().len() == 1,
    {
    }

    /// The next handle of a table fits in a `usize`.
    pub proof fn lemma_handle_fits(&self)
        ensures
            self.handle() <= usize::MAX,
    {
    }

    /// Hands the handle generator over, leaving a fresh one in its place.
    pub fn take_handle_gen(&mut self) -> (r: HandleGenerator)
        ensures
            r.next() == old(self).handle(),
            final(self).scopes() == old(self).scopes(),
            final(self).frame() == old(self).frame(),
    {
        let mut handle_gen = HandleGenerator::new();
        core::mem::swap(&mut handle_gen, &mut self.handle_gen);
        handle_gen
    }

    /// Puts a handle generator back.
    pub fn restore_handle_gen(&mut self, handle_gen: HandleGenerator)
        ensures
            final(self).handle() == handle_gen.next(),
            final(self).scopes() == old(self).scopes(),
            final(self).frame() == old(self).frame(),
    {
        self.handle_gen = handle_gen;
    }
}

proof fn one_scope<A>(entries: Seq<SymbolEntry>, f: spec_fn(Seq<SymbolEntry>) -> Option<A>)
    ensures
        first_answer(seq![entries], f) == f(entries),
{
    reveal_with_fuel(first_answer, 2);
    assert(seq![entries][0] == entries);
    assert(seq![entries].drop_first() =~= Seq::<Seq<SymbolEntry>>::empty());
}

impl SymbolTable for DefaultSymbolTable {
    closed spec fn scopes(&self) -> Seq<Seq<SymbolEntry>> {
        seq![self.symbols.entries@]
    }

    closed spec fn handle(&self) -> nat {
        self.handle_gen.next()
    }

    closed spec fn frame(&self) -> i8 {
        self.next_frame_offset
    }

    closed spec fn outer_frames(&self) -> Seq<i8> {
        Seq::empty()
    }

    proof fn lemma_scopes(&self) {
    }

    fn new_handle(&mut self) -> (r: SymbolRef) {
        self.handle_gen.new_handle()
    }

    fn new_block_name(&mut self) -> (r: (SymbolName, SymbolRef)) {
        let symbol_ref = self.handle_gen.new_handle();
        let symbol_name = label_with_hex(false, symbol_ref);
        let _ = self.symbols.insert(symbol_name.clone(), symbol_ref, Symbol::Block);
        assert(self.scopes() =~= old(self).scopes().update(
            old(self).scopes().len() - 1,
            inserted(old(self).scopes().last(), symbol_name, symbol_ref, Symbol::Block),
        ));
        (symbol_name, symbol_ref)
    }

    fn insert_block(&mut self, symbol_name: SymbolName) -> (r: Option<SymbolRef>) {
        let symbol_ref = self.handle_gen.new_handle();
        let r = self.symbols.insert(symbol_name, symbol_ref, Symbol::Block);
        assert(self.scopes() =~= old(self).scopes().update(
            old(self).scopes().len() - 1,
            inserted(old(self).scopes().last(), symbol_name, symbol_ref, Symbol::Block),
        ));
        r
    }

    fn has_symbol(&self, symbol_name: &SymbolName) -> (r: bool) {
        proof {
            one_scope(self.symbols.entries@, |e: Seq<SymbolEntry>| entry_named(e, symbol_name@));
        }
        self.symbols.find_by_name(symbol_name).is_some()
    }

    fn find_symbol(&self, symbol_name: &SymbolName) -> (r: Option<SymbolRef>) {
        proof {
            one_scope(self.symbols.entries@, |e: Seq<SymbolEntry>| entry_named(e, symbol_name@));
        }
        match self.symbols.find_by_name(symbol_name) {
            Some(e) => Some(e.symbol_ref),
            None => None,
        }
    }

    fn get_symbol_name(&self, symbol_ref: SymbolRef) -> (r: Option<SymbolName>) {
        proof {
            one_scope(self.symbols.entries@, |e: Seq<SymbolEntry>| entry_with_ref(e, symbol_ref));
        }
        match self.symbols.find_by_ref(symbol_ref) {
            Some(e) => Some(e.name.clone()),
            None => None,
        }
    }

    fn next_frame_offset(&mut self, local_size: usize) -> (r: i8) {
        let result = self.next_frame_offset;
        self.next_frame_offset = self.next_frame_offset.wrapping_add(local_size as i8);
        result
    }

    fn create_temporary(&mut self, base_type: &BaseType) -> (r: SymbolRef) {
        let next_location = self.next_frame_offset(base_type.size().unwrap());
        let symbol_name = temporary_name(next_location);
        let symbol_ref = self.handle_gen.new_handle();
        let _ = self.symbols.insert(
            symbol_name,
            symbol_ref,
            Symbol::Variable(Variable::new(base_type.clone(), Location::FrameOffset(next_location))),
        );
        assert(self.scopes() =~= old(self).scopes().update(
            0,
            inserted(
                old(self).scopes()[0],
                symbol_name,
                symbol_ref,
                Symbol::Variable(Variable { base_type: *base_type, location: Location::FrameOffset(old(self).frame()) }),
            ),
        ));
        symbol_ref
    }

    fn create_temporary_location(&mut self, base_type: &BaseType) -> (r: Location) {
        let offset = self.next_frame_offset;
        let _ = self.create_temporary(base_type);
        Location::FrameOffset(offset)
    }

    fn insert_constant(&mut self, symbol_name: SymbolName, base_type: &BaseType, value: ConstantValue) -> (r: Option<SymbolRef>) {
        let symbol_ref = self.handle_gen.new_handle();
        let r = self.symbols.insert(symbol_name, symbol_ref, Symbol::Constant(Constant::new(base_type.clone(), value)));
        assert(self.scopes() =~= old(self).scopes().update(
            0,
            inserted(old(self).scopes()[0], symbol_name, symbol_ref, Symbol::Constant(Constant { base_type: *base_type, value })),
        ));
        r
    }

    fn insert_unnamed_constant(&mut self, base_type: &BaseType, value: ConstantValue) -> (r: Option<SymbolRef>) {
        let h = self.new_handle();
        let name = label_with_hex(true, h);
        let r = self.insert_constant(name, base_type, value);
        r
    }

    fn constant_by_name(&self, symbol_name: &SymbolName) -> (r: Option<&Constant>) {
        proof {
            one_scope(self.symbols.entries@, |e: Seq<SymbolEntry>| as_constant(entry_named(e, symbol_name@)));
        }
        match self.symbols.find_by_name(symbol_name) {
            Some(SymbolEntry { symbol: Symbol::Constant(c), .. }) => Some(c),
            _ => None,
        }
    }

    fn constant(&self, symbol_ref: SymbolRef) -> (r: Option<&Constant>) {
        proof {
            one_scope(self.symbols.entries@, |e: Seq<SymbolEntry>| as_constant(entry_with_ref(e, symbol_ref)));
        }
        match self.symbols.find_by_ref(symbol_ref) {
            Some(SymbolEntry { symbol: Symbol::Constant(c), .. }) => Some(c),
            _ => None,
        }
    }

    fn insert_function(&mut self, symbol_name: SymbolName, metadata: FunctionMetadata) -> (r: Option<SymbolRef>) {
        let symbol_ref = self.handle_gen.new_handle();
        let r = self.symbols.insert(symbol_name, symbol_ref, Symbol::Function(metadata));
        assert(self.scopes() =~= old(self).scopes().update(
            0,
            inserted(old(self).scopes()[0], symbol_name, symbol_ref, Symbol::Function(metadata)),
        ));
        r
    }

    fn function_by_name(&self, symbol_name: &SymbolName) -> (r: Option<&FunctionMetadata>) {
        proof {
            one_scope(self.symbols.entries@, |e: Seq<SymbolEntry>| as_function(entry_named(e, symbol_name@)));
        }
        match self.symbols.find_by_name(symbol_name) {
            Some(SymbolEntry { symbol: Symbol::Function(f), .. }) => Some(f),
            _ => None,
        }
    }

    fn function(&self, symbol_ref: SymbolRef) -> (r: Option<&FunctionMetadata>) {
        proof {
            one_scope(self.symbols.entries@, |e: Seq<SymbolEntry>| as_function(entry_with_ref(e, symbol_ref)));
        }
        match self.symbols.find_by_ref(symbol_ref) {
            Some(SymbolEntry { symbol: Symbol::Function(f), .. }) => Some(f),
            _ => None,
        }
    }

    fn insert_variable(&mut self, symbol_name: SymbolName, variable: Variable) -> (r: Option<SymbolRef>) {
        let symbol_ref = self.handle_gen.new_handle();
        let r = self.symbols.insert(symbol_name, symbol_ref, Symbol::Variable(variable));
        assert(self.scopes() =~= old(self).scopes().update(
            0,
            inserted(old(self).scopes()[0], symbol_name, symbol_ref, Symbol::Variable(variable)),
        ));
        r
    }

    fn variable_by_name(&self, symbol_name: &SymbolName) -> (r: Option<&Variable>) {
        proof {
            one_scope(self.symbols.entries@, |e: Seq<SymbolEntry>| as_variable(entry_named(e, symbol_name@)));
        }
        match self.symbols.find_by_name(symbol_name) {
            Some(SymbolEntry { symbol: Symbol::Variable(v), .. }) => Some(v),
            _ => None,
        }
    }

    fn variable(&self, symbol_ref: SymbolRef) -> (r: Option<&Variable>) {
        proof {
            one_scope(self.symbols.entries@, |e: Seq<SymbolEntry>| as_variable(entry_with_ref(e, symbol_ref)));
        }
        match self.symbols.find_by_ref(symbol_ref) {
            Some(SymbolEntry { symbol: Symbol::Variable(v), .. }) => Some(v),
            _ => None,
        }
    }

    fn variables(&self) -> (r: Vec<Variable>) {
        self.symbols.variables()
    }

    fn data_constants(&self) -> (r: Vec<(SymbolRef, Vec<u8>)>) {
        self.symbols.data_constants()
    }

    fn type_of(&self, symbol_ref: SymbolRef) -> (r: Option<BaseType>) {
        proof {
            one_scope(self.symbols.entries@, |e: Seq<SymbolEntry>| type_of_entry(entry_with_ref(e, symbol_ref)));
        }
        match self.symbols.find_by_ref(symbol_ref) {
            Some(SymbolEntry { symbol: Symbol::Constant(c), .. }) => Some(c.base_type.clone()),
            Some(SymbolEntry { symbol: Symbol::Variable(v), .. }) => Some(v.base_type.clone()),
            Some(SymbolEntry { symbol: Symbol::Function(f), .. }) => Some(f.return_type.clone()),
            _ => None,
        }
    }

    fn type_of_by_name(&self, symbol_name: &SymbolName) -> (r: Option<BaseType>) {
        proof {
            one_scope(
                self.symbols.entries@,
                |e: Seq<SymbolEntry>|
                    match entry_named(e, symbol_name@) {
                        Some(n) => type_of_entry(entry_with_ref(e, n.symbol_ref)),
                        None => None,
                    },
            );
        }
        match self.symbols.find_by_name(symbol_name) {
            Some(e) => {
                proof {
                    one_scope(
                        self.symbols.entries@,
                        |x: Seq<SymbolEntry>| type_of_entry(entry_with_ref(x, e.symbol_ref)),
                    );
                }
                self.type_of(e.symbol_ref)
            },
            None => None,
        }
    }
}


proof fn two_scopes<A>(inner: Seq<SymbolEntry>, outer: Seq<SymbolEntry>, f: spec_fn(Seq<SymbolEntry>) -> Option<A>)
    ensures
        first_answer(seq![inner, outer], f) == match f(inner) {
            Some(a) => Some(a),
            None => f(outer),
        },
{
    reveal_with_fuel(first_answer, 3);
    let s = seq![inner, outer];
    assert(s[0] == inner);
    assert(s.drop_first() =~= seq![outer]);
    assert(s.drop_first()[0] == outer);
    assert(s.drop_first().drop_first() =~= Seq::<Seq<SymbolEntry>>::empty());
}

/// A scope nested in an outer one, such as a function's locals within the
/// globals: lookups try the inner scope first, handles and block labels come
/// from the outer scope.
#[derive(Debug)]
pub struct ParentedSymbolTableWrapper {
    parent: DefaultSymbolTable,
    child: DefaultSymbolTable,
}

impl ParentedSymbolTableWrapper {
    /// The outer scope.
    pub closed spec fn outer(&self) -> DefaultSymbolTable {
        self.parent
    }

    /// The inner scope.
    pub closed spec fn inner(&self) -> DefaultSymbolTable {
        self.child
    }

    pub fn new(parent: DefaultSymbolTable, child: DefaultSymbolTable) -> (r: ParentedSymbolTableWrapper)
        ensures
            r.scopes() == seq![child.scopes()[0], parent.scopes()[0]],
            r.handle() == parent.handle(),
            r.outer_frames() == seq![parent.frame()],
            r.frame() == child.frame(),
            r.outer() == parent,
            r.inner() == child,
    {
        ParentedSymbolTableWrapper { parent, child }
    }

    /// Takes the two scopes apart again, the outer one first.
    pub fn into_parts(self) -> (r: (DefaultSymbolTable, DefaultSymbolTable))
        ensures
            self.scopes() == seq![r.1.scopes()[0], r.0.scopes()[0]],
            r.0.handle() == self.handle(),
            r.1.frame() == self.frame(),
            self.outer_frames() == seq![r.0.frame()],
            r == (self.outer(), self.inner()),
    {
        (self.parent, self.child)
    }

    /// Lends the outer scope's handle generator to the inner scope.
    fn lend_handles(&mut self)
        ensures
            final(self).child.handle() == old(self).parent.handle(),
            final(self).child.scopes() == old(self).child.scopes(),
            final(self).child.frame() == old(self).child.frame(),
            final(self).parent.scopes() == old(self).parent.scopes(),
            final(self).parent.frame() == old(self).parent.frame(),
    {
        let g = self.parent.take_handle_gen();
        self.child.restore_handle_gen(g);
    }

    /// Gives the handle generator back to the outer scope.
    fn return_handles(&mut self)
        ensures
            final(self).parent.handle() == old(self).child.handle(),
            final(self).child.scopes() == old(self).child.scopes(),
            final(self).child.frame() == old(self).child.frame(),
            final(self).parent.scopes() == old(self).parent.scopes(),
            final(self).parent.frame() == old(self).parent.frame(),
    {
        let g = self.child.take_handle_gen();
        self.parent.restore_handle_gen(g);
    }
}

impl SymbolTable for ParentedSymbolTableWrapper {
    closed spec fn scopes(&self) -> Seq<Seq<SymbolEntry>> {
        seq![self.child.scopes()[0], self.parent.scopes()[0]]
    }

    closed spec fn handle(&self) -> nat {
        self.parent.handle()
    }

    closed spec fn frame(&self) -> i8 {
        self.child.frame()
    }

    closed spec fn outer_frames(&self) -> Seq<i8> {
        seq![self.parent.frame()]
    }

    proof fn lemma_scopes(&self) {
        self.parent.lemma_scopes();
    }

    fn new_handle(&mut self) -> (r: SymbolRef) {
        self.parent.new_handle()
    }

    fn new_block_name(&mut self) -> (r: (SymbolName, SymbolRef)) {
        let r = self.parent.new_block_name();
        assert(self.scopes() =~= old(self).scopes().update(
            old(self).scopes().len() - 1,
            inserted(old(self).scopes().last(), r.0, r.1, Symbol::Block),
        ));
        r
    }

    fn insert_block(&mut self, symbol_name: SymbolName) -> (r: Option<SymbolRef>) {
        let r = self.parent.insert_block(symbol_name);
        assert(self.scopes() =~= old(self).scopes().update(
            old(self).scopes().len() - 1,
            inserted(old(self).scopes().last(), symbol_name, old(self).handle() as SymbolRef, Symbol::Block),
        ));
        r
    }

    fn has_symbol(&self, symbol_name: &SymbolName) -> (r: bool) {
        proof {
            two_scopes(self.child.scopes()[0], self.parent.scopes()[0], |e: Seq<SymbolEntry>| entry_named(e, symbol_name@));
            self.child.lemma_scopes();
            one_scope(self.child.scopes()[0], |e: Seq<SymbolEntry>| entry_named(e, symbol_name@));
            one_scope(self.parent.scopes()[0], |e: Seq<SymbolEntry>| entry_named(e, symbol_name@));
            assert(self.child.scopes() =~= seq![self.child.scopes()[0]]);
            assert(self.parent.scopes() =~= seq![self.parent.scopes()[0]]);
        }
        self.parent.has_symbol(symbol_name) || self.child.has_symbol(symbol_name)
    }

    fn find_symbol(&self, symbol_name: &SymbolName) -> (r: Option<SymbolRef>) {
        proof {
            two_scopes(self.child.scopes()[0], self.parent.scopes()[0], |e: Seq<SymbolEntry>| entry_named(e, symbol_name@));
            one_scope(self.child.scopes()[0], |e: Seq<SymbolEntry>| entry_named(e, symbol_name@));
            one_scope(self.parent.scopes()[0], |e: Seq<SymbolEntry>| entry_named(e, symbol_name@));
            assert(self.child.scopes() =~= seq![self.child.scopes()[0]]);
            assert(self.parent.scopes() =~= seq![self.parent.scopes()[0]]);
        }
        match self.child.find_symbol(symbol_name) {
            Some(symbol_ref) => Some(symbol_ref),
            None => self.parent.find_symbol(symbol_name),
        }
    }

    fn get_symbol_name(&self, symbol_ref: SymbolRef) -> (r: Option<SymbolName>) {
        proof {
            two_scopes(self.child.scopes()[0], self.parent.scopes()[0], |e: Seq<SymbolEntry>| entry_with_ref(e, symbol_ref));
            one_scope(self.child.scopes()[0], |e: Seq<SymbolEntry>| entry_with_ref(e, symbol_ref));
            one_scope(self.parent.scopes()[0], |e: Seq<SymbolEntry>| entry_with_ref(e, symbol_ref));
            assert(self.child.scopes() =~= seq![self.child.scopes()[0]]);
            assert(self.parent.scopes() =~= seq![self.parent.scopes()[0]]);
        }
        match self.child.get_symbol_name(symbol_ref) {
            Some(symbol_name) => Some(symbol_name),
            None => self.parent.get_symbol_name(symbol_ref),
        }
    }

    fn next_frame_offset(&mut self, local_size: usize) -> (r: i8) {
        self.child.next_frame_offset(local_size)
    }

    fn create_temporary(&mut self, base_type: &BaseType) -> (r: SymbolRef) {
        self.lend_handles();
        let r = self.child.create_temporary(base_type);
        self.return_handles();
        assert(self.child.scopes() =~= seq![self.child.scopes()[0]]);
        assert(old(self).child.scopes() =~= seq![old(self).child.scopes()[0]]);
        let ghost name = choose|name: SymbolName|
            name@ == temporary_label(old(self).frame()) && self.child.scopes() == seq![old(self).child.scopes()[0]].update(
                0,
                inserted(
                    old(self).child.scopes()[0],
                    name,
                    r,
                    Symbol::Variable(Variable { base_type: *base_type, location: Location::FrameOffset(old(self).frame()) }),
                ),
            );
        assert(self.scopes() =~= old(self).scopes().update(
            0,
            inserted(
                old(self).scopes()[0],
                name,
                r,
                Symbol::Variable(Variable { base_type: *base_type, location: Location::FrameOffset(old(self).frame()) }),
            ),
        ));
        r
    }

    fn create_temporary_location(&mut self, base_type: &BaseType) -> (r: Location) {
        let offset = self.child.next_frame_offset;
        let _ = self.create_temporary(base_type);
        Location::FrameOffset(offset)
    }

    fn insert_constant(&mut self, symbol_name: SymbolName, base_type: &BaseType, value: ConstantValue) -> (r: Option<SymbolRef>) {
        self.lend_handles();
        let r = self.child.insert_constant(symbol_name, base_type, value);
        self.return_handles();
        assert(self.scopes() =~= old(self).scopes().update(
            0,
            inserted(
                old(self).scopes()[0],
                symbol_name,
                old(self).handle() as SymbolRef,
                Symbol::Constant(Constant { base_type: *base_type, value }),
            ),
        ));
        r
    }

    fn insert_unnamed_constant(&mut self, base_type: &BaseType, value: ConstantValue) -> (r: Option<SymbolRef>) {
        let h = self.new_handle();
        let name = label_with_hex(true, h);
        let r = self.insert_constant(name, base_type, value);
        r
    }

    fn constant_by_name(&self, symbol_name: &SymbolName) -> (r: Option<&Constant>) {
        proof {
            let f = |e: Seq<SymbolEntry>| as_constant(entry_named(e, symbol_name@));
            two_scopes(self.child.scopes()[0], self.parent.scopes()[0], f);
            one_scope(self.child.scopes()[0], f);
            one_scope(self.parent.scopes()[0], f);
            assert(self.child.scopes() =~= seq![self.child.scopes()[0]]);
            assert(self.parent.scopes() =~= seq![self.parent.scopes()[0]]);
        }
        match self.child.constant_by_name(symbol_name) {
            Some(c) => Some(c),
            None => self.parent.constant_by_name(symbol_name),
        }
    }

    fn constant(&self, symbol_ref: SymbolRef) -> (r: Option<&Constant>) {
        proof {
            let f = |e: Seq<SymbolEntry>| as_constant(entry_with_ref(e, symbol_ref));
            two_scopes(self.child.scopes()[0], self.parent.scopes()[0], f);
            one_scope(self.child.scopes()[0], f);
            one_scope(self.parent.scopes()[0], f);
            assert(self.child.scopes() =~= seq![self.child.scopes()[0]]);
            assert(self.parent.scopes() =~= seq![self.parent.scopes()[0]]);
        }
        match self.child.constant(symbol_ref) {
            Some(c) => Some(c),
            None => self.parent.constant(symbol_ref),
        }
    }

    fn insert_function(&mut self, symbol_name: SymbolName, metadata: FunctionMetadata) -> (r: Option<SymbolRef>) {
        self.lend_handles();
        let r = self.child.insert_function(symbol_name, metadata);
        self.return_handles();
        assert(self.scopes() =~= old(self).scopes().update(
            0,
            inserted(old(self).scopes()[0], symbol_name, old(self).handle() as SymbolRef, Symbol::Function(metadata)),
        ));
        r
    }

    fn function_by_name(&self, symbol_name: &SymbolName) -> (r: Option<&FunctionMetadata>) {
        proof {
            let f = |e: Seq<SymbolEntry>| as_function(entry_named(e, symbol_name@));
            two_scopes(self.child.scopes()[0], self.parent.scopes()[0], f);
            one_scope(self.child.scopes()[0], f);
            one_scope(self.parent.scopes()[0], f);
            assert(self.child.scopes() =~= seq![self.child.scopes()[0]]);
            assert(self.parent.scopes() =~= seq![self.parent.scopes()[0]]);
        }
        match self.child.function_by_name(symbol_name) {
            Some(f) => Some(f),
            None => self.parent.function_by_name(symbol_name),
        }
    }

    fn function(&self, symbol_ref: SymbolRef) -> (r: Option<&FunctionMetadata>) {
        proof {
            let f = |e: Seq<SymbolEntry>| as_function(entry_with_ref(e, symbol_ref));
            two_scopes(self.child.scopes()[0], self.parent.scopes()[0], f);
            one_scope(self.child.scopes()[0], f);
            one_scope(self.parent.scopes()[0], f);
            assert(self.child.scopes() =~= seq![self.child.scopes()[0]]);
            assert(self.parent.scopes() =~= seq![self.parent.scopes()[0]]);
        }
        match self.child.function(symbol_ref) {
            Some(f) => Some(f),
            None => self.parent.function(symbol_ref),
        }
    }

    fn insert_variable(&mut self, symbol_name: SymbolName, variable: Variable) -> (r: Option<SymbolRef>) {
        self.lend_handles();
        let r = self.child.insert_variable(symbol_name, variable);
        self.return_handles();
        assert(self.scopes() =~= old(self).scopes().update(
            0,
            inserted(old(self).scopes()[0], symbol_name, old(self).handle() as SymbolRef, Symbol::Variable(variable)),
        ));
        r
    }

    fn variable_by_name(&self, symbol_name: &SymbolName) -> (r: Option<&Variable>) {
        proof {
            let f = |e: Seq<SymbolEntry>| as_variable(entry_named(e, symbol_name@));
            two_scopes(self.child.scopes()[0], self.parent.scopes()[0], f);
            one_scope(self.child.scopes()[0], f);
            one_scope(self.parent.scopes()[0], f);
            assert(self.child.scopes() =~= seq![self.child.scopes()[0]]);
            assert(self.parent.scopes() =~= seq![self.parent.scopes()[0]]);
        }
        match self.child.variable_by_name(symbol_name) {
            Some(v) => Some(v),
            None => self.parent.variable_by_name(symbol_name),
        }
    }

    fn variable(&self, symbol_ref: SymbolRef) -> (r: Option<&Variable>) {
        proof {
            let f = |e: Seq<SymbolEntry>| as_variable(entry_with_ref(e, symbol_ref));
            two_scopes(self.child.scopes()[0], self.parent.scopes()[0], f);
            one_scope(self.child.scopes()[0], f);
            one_scope(self.parent.scopes()[0], f);
            assert(self.child.scopes() =~= seq![self.child.scopes()[0]]);
            assert(self.parent.scopes() =~= seq![self.parent.scopes()[0]]);
        }
        match self.child.variable(symbol_ref) {
            Some(v) => Some(v),
            None => self.parent.variable(symbol_ref),
        }
    }

    fn variables(&self) -> (r: Vec<Variable>) {
        self.child.variables()
    }

    fn data_constants(&self) -> (r: Vec<(SymbolRef, Vec<u8>)>) {
        self.child.data_constants()
    }

    fn type_of(&self, symbol_ref: SymbolRef) -> (r: Option<BaseType>) {
        proof {
            let f = |e: Seq<SymbolEntry>| type_of_entry(entry_with_ref(e, symbol_ref));
            two_scopes(self.child.scopes()[0], self.parent.scopes()[0], f);
            one_scope(self.child.scopes()[0], f);
            one_scope(self.parent.scopes()[0], f);
            assert(self.child.scopes() =~= seq![self.child.scopes()[0]]);
            assert(self.parent.scopes() =~= seq![self.parent.scopes()[0]]);
        }
        match self.child.type_of(symbol_ref) {
            Some(t) => Some(t),
            None => self.parent.type_of(symbol_ref),
        }
    }

    fn type_of_by_name(&self, symbol_name: &SymbolName) -> (r: Option<BaseType>) {
        proof {
            let f = |e: Seq<SymbolEntry>|
                match entry_named(e, symbol_name@) {
                    Some(n) => type_of_entry(entry_with_ref(e, n.symbol_ref)),
                    None => None,
                };
            two_scopes(self.child.scopes()[0], self.parent.scopes()[0], f);
            one_scope(self.child.scopes()[0], f);
            one_scope(self.parent.scopes()[0], f);
            assert(self.child.scopes() =~= seq![self.child.scopes()[0]]);
            assert(self.parent.scopes() =~= seq![self.parent.scopes()[0]]);
        }
        match self.child.type_of_by_name(symbol_name) {
            Some(t) => Some(t),
            None => self.parent.type_of_by_name(symbol_name),
        }
    }
}

proof fn lemma_entry_named_push(entries: Seq<SymbolEntry>, e: SymbolEntry, name: Seq<char>)
    ensures
        entry_named(entries.push(e), name) == match entry_named(entries, name) {
            Some(x) => Some(x),
            None => if e.name@ == name {
                Some(e)
            } else {
                None
            },
        },
{
    assert(entries.push(e).drop_last() =~= entries);
}

proof fn lemma_entry_with_ref_push(entries: Seq<SymbolEntry>, e: SymbolEntry, r: SymbolRef)
    ensures
        entry_with_ref(entries.push(e), r) == match entry_with_ref(entries, r) {
            Some(x) => Some(x),
            None => if e.symbol_ref == r {
                Some(e)
            } else {
                None
            },
        },
{
    assert(entries.push(e).drop_last() =~= entries);
}

/// A name that a scope holds stays there when a symbol is inserted.
pub proof fn lemma_inserted_keeps_name(entries: Seq<SymbolEntry>, name: SymbolName, r: SymbolRef, s: Symbol, n: Seq<char>)
    requires
        entry_named(entries, n) is Some,
    ensures
        entry_named(inserted(entries, name, r, s), n) is Some,
{
    if insertable(entries, name@, r) {
        lemma_entry_named_push(entries, SymbolEntry { name, symbol_ref: r, symbol: s }, n);
    }
}

/// A name inserted into a scope that did not hold it is found there.
pub proof fn lemma_inserted_has_name(entries: Seq<SymbolEntry>, name: SymbolName, r: SymbolRef, s: Symbol)
    requires
        insertable(entries, name@, r),
    ensures
        entry_named(inserted(entries, name, r, s), name@) is Some,
{
    lemma_entry_named_push(entries, SymbolEntry { name, symbol_ref: r, symbol: s }, name@);
}

/// A symbol inserted into the innermost scope can be found by its name and
/// by its handle, and shadows any symbol of that name in outer scopes.
pub proof fn lemma_insert_then_find(
    scopes: Seq<Seq<SymbolEntry>>,
    name: SymbolName,
    r: SymbolRef,
    s: Symbol,
)
    requires
        scopes.len() >= 1,
        insertable(scopes[0], name@, r),
    ensures
        visible_named(scopes.update(0, inserted(scopes[0], name, r, s)), name@) == Some(
            SymbolEntry { name, symbol_ref: r, symbol: s },
        ),
        visible_with_ref(scopes.update(0, inserted(scopes[0], name, r, s)), r) == Some(
            SymbolEntry { name, symbol_ref: r, symbol: s },
        ),
{
    let e = SymbolEntry { name, symbol_ref: r, symbol: s };
    let new_scopes = scopes.update(0, inserted(scopes[0], name, r, s));
    lemma_entry_named_push(scopes[0], e, name@);
    lemma_entry_with_ref_push(scopes[0], e, r);
    assert(new_scopes[0] == scopes[0].push(e));
}

/// A variable inserted into the innermost scope is the variable found under
/// its name and under its handle.
pub proof fn lemma_insert_variable_then_lookup(
    scopes: Seq<Seq<SymbolEntry>>,
    name: SymbolName,
    r: SymbolRef,
    v: Variable,
)
    requires
        scopes.len() >= 1,
        insertable(scopes[0], name@, r),
    ensures
        variable_named(scopes.update(0, inserted(scopes[0], name, r, Symbol::Variable(v))), name@)
            == Some(v),
        variable_with_ref(scopes.update(0, inserted(scopes[0], name, r, Symbol::Variable(v))), r)
            == Some(v),
        type_with_ref(scopes.update(0, inserted(scopes[0], name, r, Symbol::Variable(v))), r)
            == Some(v.base_type),
{
    let e = SymbolEntry { name, symbol_ref: r, symbol: Symbol::Variable(v) };
    lemma_entry_named_push(scopes[0], e, name@);
    lemma_entry_with_ref_push(scopes[0], e, r);
}

/// An insertion whose name or handle is taken changes nothing.
pub proof fn lemma_refused_insert_changes_nothing(
    entries: Seq<SymbolEntry>,
    name: SymbolName,
    r: SymbolRef,
    s: Symbol,
)
    requires
        !insertable(entries, name@, r),
    ensures
        inserted(entries, name, r, s) == entries,
{
}

/// Two handles taken one after the other differ, unless the count wrapped
/// around in between.
pub proof fn lemma_handles_differ(h: nat)
    requires
        h < usize::MAX,
    ensures
        following(h) != h,
{
}
} // verus!
