use vstd::prelude::*;
use crate::base_type::BaseType;
use crate::error::ErrorKind;
use crate::src_tag::{row_col_after, SrcTag};
use crate::text::{decimal_text, push_char, push_decimal, push_quoted, push_str, quoted};

verus! {

/// A literal value.
#[derive(Debug)]
pub enum Literal {
    Int(i32),
    Str(String),
}

/// A name with its declared type.
#[derive(Debug)]
pub struct NameType {
    pub name: String,
    pub base_type: BaseType,
}

impl NameType {
    pub fn new(name: String, base_type: BaseType) -> (r: NameType)
        ensures
            r.name == name,
            r.base_type == base_type,
    {
        NameType { name, base_type }
    }
}

impl Clone for NameType {
    fn clone(&self) -> (r: NameType)
        ensures
            r == *self,
    {
        NameType { name: self.name.clone(), base_type: self.base_type.clone() }
    }
}

/// The binary operators of the language.
#[derive(Debug, Copy, Clone, Eq, PartialEq, Structural)]
pub enum BinaryOperator {
    Add,
    Sub,
    Mul,
    Div,
    LessThan,
    GreaterThan,
    LessThanEqual,
    GreaterThanEqual,
    Equal,
    NotEqual,
}

/// Whether the operator computes a number, as opposed to a comparison.
pub open spec fn arithmetic(op: BinaryOperator) -> bool {
    op is Add || op is Sub || op is Mul || op is Div
}

impl BinaryOperator {
    pub fn is_arithmetic(&self) -> (r: bool)
        ensures
            r == arithmetic(*self),
    {
        match self {
            BinaryOperator::Add | BinaryOperator::Sub | BinaryOperator::Mul | BinaryOperator::Div => true,
            _ => false,
        }
    }
}

/// An element of an array: `array[index]`.
#[derive(Debug)]
pub struct ArrayIndexData {
    pub tag: SrcTag,
    pub array: String,
    pub index: Box<Expression>,
}

impl ArrayIndexData {
    pub fn new(tag: SrcTag, array: String, index: Box<Expression>) -> (r: ArrayIndexData)
        ensures
            r.tag == tag,
            r.array == array,
            r.index == index,
    {
        ArrayIndexData { tag, array, index }
    }
}

/// An assignment: `left = right;`.
#[derive(Debug)]
pub struct AssignmentData {
    pub tag: SrcTag,
    pub left_value: Box<Expression>,
    pub right_value: Box<Expression>,
}

impl AssignmentData {
    pub fn new(tag: SrcTag, left_value: Box<Expression>, right_value: Box<Expression>) -> (r: AssignmentData)
        ensures
            r.tag == tag,
            r.left_value == left_value,
            r.right_value == right_value,
    {
        AssignmentData { tag, left_value, right_value }
    }
}

/// A binary operation between two expressions.
#[derive(Debug)]
pub struct BinaryOpData {
    pub tag: SrcTag,
    pub op: BinaryOperator,
    pub left: Box<Expression>,
    pub right: Box<Expression>,
}

impl BinaryOpData {
    pub fn new(tag: SrcTag, op: BinaryOperator, left: Box<Expression>, right: Box<Expression>) -> (r: BinaryOpData)
        ensures
            r.tag == tag,
            r.op == op,
            r.left == left,
            r.right == right,
    {
        BinaryOpData { tag, op, left, right }
    }
}

/// A call of a function with arguments.
#[derive(Debug)]
pub struct CallFunctionData {
    pub tag: SrcTag,
    pub name: String,
    pub arguments: Vec<Expression>,
}

impl CallFunctionData {
    pub fn new(tag: SrcTag, name: String, arguments: Vec<Expression>) -> (r: CallFunctionData)
        ensures
            r.tag == tag,
            r.name == name,
            r.arguments == arguments,
    {
        CallFunctionData { tag, name, arguments }
    }
}

/// `if condition then ... else ... end`.
#[derive(Debug)]
pub struct ConditionalData {
    pub tag: SrcTag,
    pub condition: Box<Expression>,
    pub when_true: Vec<Expression>,
    pub when_false: Vec<Expression>,
}

impl ConditionalData {
    pub fn new(tag: SrcTag, condition: Box<Expression>, when_true: Vec<Expression>, when_false: Vec<Expression>) -> (r: ConditionalData)
        ensures
            r.tag == tag,
            r.condition == condition,
            r.when_true == when_true,
            r.when_false == when_false,
    {
        ConditionalData { tag, condition, when_true, when_false }
    }
}

/// `const name: type = value;`.
#[derive(Debug)]
pub struct DeclareConstData {
    pub tag: SrcTag,
    pub name_type: NameType,
    pub value: Box<Expression>,
}

impl DeclareConstData {
    pub fn new(tag: SrcTag, name_type: NameType, value: Box<Expression>) -> (r: DeclareConstData)
        ensures
            r.tag == tag,
            r.name_type == name_type,
            r.value == value,
    {
        DeclareConstData { tag, name_type, value }
    }
}

/// `def name(parameters): return_type ... end`.
#[derive(Debug)]
pub struct DeclareFunctionData {
    pub tag: SrcTag,
    pub name: String,
    pub parameters: Vec<NameType>,
    pub return_type: BaseType,
    pub body: Vec<Expression>,
}

impl DeclareFunctionData {
    pub fn new(tag: SrcTag, name: String, parameters: Vec<NameType>, return_type: BaseType, body: Vec<Expression>) -> (r: DeclareFunctionData)
        ensures
            r.tag == tag,
            r.name == name,
            r.parameters == parameters,
            r.return_type == return_type,
            r.body == body,
    {
        DeclareFunctionData { tag, name, parameters, return_type, body }
    }
}

/// `register name: type @ location;`: a variable at a fixed address.
#[derive(Debug)]
pub struct DeclareRegisterData {
    pub tag: SrcTag,
    pub name_type: NameType,
    pub location: i32,
}

impl DeclareRegisterData {
    pub fn new(tag: SrcTag, name_type: NameType, location: i32) -> (r: DeclareRegisterData)
        ensures
            r.tag == tag,
            r.name_type == name_type,
            r.location == location,
    {
        DeclareRegisterData { tag, name_type, location }
    }
}

/// `var name: type = value;`.
#[derive(Debug)]
pub struct DeclareVariableData {
    pub tag: SrcTag,
    pub name_type: NameType,
    pub value: Box<Expression>,
}

impl DeclareVariableData {
    pub fn new(tag: SrcTag, name_type: NameType, value: Box<Expression>) -> (r: DeclareVariableData)
        ensures
            r.tag == tag,
            r.name_type == name_type,
            r.value == value,
    {
        DeclareVariableData { tag, name_type, value }
    }
}

/// `goto label;`.
#[derive(Debug)]
pub struct GoToData {
    pub tag: SrcTag,
    pub destination: String,
}

impl GoToData {
    pub fn new(tag: SrcTag, destination: String) -> (r: GoToData)
        ensures
            r.tag == tag,
            r.destination == destination,
    {
        GoToData { tag, destination }
    }
}

/// Assembly written inline in the program.
#[derive(Debug)]
pub struct InlineAsmData {
    pub tag: SrcTag,
    pub text: String,
}

impl InlineAsmData {
    pub fn new(tag: SrcTag, text: String) -> (r: InlineAsmData)
        ensures
            r.tag == tag,
            r.text == text,
    {
        InlineAsmData { tag, text }
    }
}

/// A reference to a symbol by name.
#[derive(Debug)]
pub struct NameData {
    pub tag: SrcTag,
    pub name: String,
}

impl NameData {
    pub fn new(tag: SrcTag, name: String) -> (r: NameData)
        ensures
            r.tag == tag,
            r.name == name,
    {
        NameData { tag, name }
    }
}

/// A literal number.
#[derive(Debug)]
pub struct NumberData {
    pub tag: SrcTag,
    pub value: i32,
}

impl NumberData {
    pub fn new(tag: SrcTag, value: i32) -> (r: NumberData)
        ensures
            r.tag == tag,
            r.value == value,
    {
        NumberData { tag, value }
    }
}

/// `org address;`: the address where the following code goes.
#[derive(Debug)]
pub struct OrgData {
    pub tag: SrcTag,
    pub address: i32,
}

impl OrgData {
    pub fn new(tag: SrcTag, address: i32) -> (r: OrgData)
        ensures
            r.tag == tag,
            r.address == address,
    {
        OrgData { tag, address }
    }
}

/// `return value;` or `return;`.
#[derive(Debug)]
pub struct ReturnData {
    pub tag: SrcTag,
    pub value: Option<Box<Expression>>,
}

impl ReturnData {
    pub fn new(tag: SrcTag, value: Option<Box<Expression>>) -> (r: ReturnData)
        ensures
            r.tag == tag,
            r.value == value,
    {
        ReturnData { tag, value }
    }
}

/// A literal string of text.
#[derive(Debug)]
pub struct TextData {
    pub tag: SrcTag,
    pub value: String,
}

impl TextData {
    pub fn new(tag: SrcTag, value: String) -> (r: TextData)
        ensures
            r.tag == tag,
            r.value == value,
    {
        TextData { tag, value }
    }
}

/// `while condition do ... end`.
#[derive(Debug)]
pub struct WhileLoopData {
    pub tag: SrcTag,
    pub condition: Box<Expression>,
    pub body: Vec<Expression>,
}

impl WhileLoopData {
    pub fn new(tag: SrcTag, condition: Box<Expression>, body: Vec<Expression>) -> (r: WhileLoopData)
        ensures
            r.tag == tag,
            r.condition == condition,
            r.body == body,
    {
        WhileLoopData { tag, condition, body }
    }
}

/// A node of the syntax tree.
#[derive(Debug)]
pub enum Expression {
    ArrayIndex(ArrayIndexData),
    Assignment(AssignmentData),
    BinaryOp(BinaryOpData),
    Break,
    CallFunction(CallFunctionData),
    Comment,
    Conditional(ConditionalData),
    DeclareConst(DeclareConstData),
    DeclareFunction(DeclareFunctionData),
    DeclareRegister(DeclareRegisterData),
    DeclareVariable(DeclareVariableData),
    Error,
    GoTo(GoToData),
    InlineAsm(InlineAsmData),
    Name(NameData),
    Number(NumberData),
    Org(OrgData),
    Return(ReturnData),
    Text(TextData),
    WhileLoop(WhileLoopData),
}

/// Whether the node remembers where it came from: all but `break`,
/// comments and parse errors.
pub open spec fn is_tagged(e: Expression) -> bool {
    !(e is Break || e is Comment || e is Error)
}

/// Where a node came from.
pub open spec fn tag_of(e: Expression) -> SrcTag
    recommends
        is_tagged(e),
{
    match e {
        Expression::ArrayIndex(d) => d.tag,
        Expression::Assignment(d) => d.tag,
        Expression::BinaryOp(d) => d.tag,
        Expression::CallFunction(d) => d.tag,
        Expression::Conditional(d) => d.tag,
        Expression::DeclareConst(d) => d.tag,
        Expression::DeclareFunction(d) => d.tag,
        Expression::DeclareRegister(d) => d.tag,
        Expression::DeclareVariable(d) => d.tag,
        Expression::GoTo(d) => d.tag,
        Expression::InlineAsm(d) => d.tag,
        Expression::Name(d) => d.tag,
        Expression::Number(d) => d.tag,
        Expression::Org(d) => d.tag,
        Expression::Return(d) => d.tag,
        Expression::Text(d) => d.tag,
        Expression::WhileLoop(d) => d.tag,
        _ => SrcTag(0),
    }
}

impl Expression {
    /// Where the node came from.
    pub fn src_tag(&self) -> (r: SrcTag)
        requires
            is_tagged(*self),
        ensures
            r == tag_of(*self),
    {
        match self {
            Expression::ArrayIndex(d) => d.tag,
            Expression::Assignment(d) => d.tag,
            Expression::BinaryOp(d) => d.tag,
            Expression::CallFunction(d) => d.tag,
            Expression::Conditional(d) => d.tag,
            Expression::DeclareConst(d) => d.tag,
            Expression::DeclareFunction(d) => d.tag,
            Expression::DeclareRegister(d) => d.tag,
            Expression::DeclareVariable(d) => d.tag,
            Expression::GoTo(d) => d.tag,
            Expression::InlineAsm(d) => d.tag,
            Expression::Name(d) => d.tag,
            Expression::Number(d) => d.tag,
            Expression::Org(d) => d.tag,
            Expression::Return(d) => d.tag,
            Expression::Text(d) => d.tag,
            Expression::WhileLoop(d) => d.tag,
            Expression::Break | Expression::Comment | Expression::Error => vstd::pervasive::unreached(),
        }
    }
}


/// A problem that the parser reports, with the positions and texts of the
/// tokens it names.
#[derive(Debug)]
pub enum ParseProblem {
    /// No token could be read at this offset.
    InvalidToken { location: usize },
    /// A token (its offset and text) that no rule expects here, or the end
    /// of the text when there is none, with the tokens that were expected.
    UnrecognizedToken { token: Option<(usize, String)>, expected: Vec<String> },
    /// A token (its offset and text) after a complete program.
    ExtraToken { extra: (usize, String) },
    /// A problem raised by a rule of the grammar; it carries nothing.
    User,
}

/// Whether the offsets of the problem lie within a text of `len` characters.
pub open spec fn problem_within(p: ParseProblem, len: nat) -> bool {
    match p {
        ParseProblem::InvalidToken { location } => location <= len,
        ParseProblem::UnrecognizedToken { token, .. } => match token {
            Some((start, _)) => start <= len,
            None => true,
        },
        ParseProblem::ExtraToken { extra } => extra.0 <= len,
        ParseProblem::User => true,
    }
}

/// The items of a list between brackets, each quoted, separated by `, `.
pub open spec fn list_items(items: Seq<String>) -> Seq<char>
    decreases items.len(),
{
    if items.len() == 0 {
        Seq::empty()
    } else if items.len() == 1 {
        quoted(items[0]@)
    } else {
        list_items(items.drop_last()) + ", "@ + quoted(items.last()@)
    }
}

/// A list of strings as `Debug` writes it: `["a", "b"]`.
pub open spec fn list_text(items: Seq<String>) -> Seq<char> {
    seq!['['] + list_items(items) + seq![']']
}

/// `unit:row:col` for an offset into the source.
pub open spec fn place_text(unit_name: Seq<char>, source: Seq<char>, at: int) -> Seq<char> {
    let (row, col) = row_col_after(source.take(at));
    unit_name + seq![':'] + decimal_text(row as nat) + seq![':'] + decimal_text(col as nat)
}

/// The message for one problem of the parser.
pub open spec fn problem_message(unit_name: Seq<char>, source: Seq<char>, p: ParseProblem) -> Seq<char> {
    match p {
        ParseProblem::InvalidToken { location } => place_text(unit_name, source, location as int)
            + ": invalid token"@,
        ParseProblem::UnrecognizedToken { token, expected } => match token {
            Some((start, text)) => place_text(unit_name, source, start as int) + ": unexpected token \""@
                + text@ + "\". Expected one of: "@ + list_text(expected@),
            None => unit_name + ": unexpected EOF; expected: "@ + list_text(expected@),
        },
        ParseProblem::ExtraToken { extra } => place_text(unit_name, source, extra.0 as int)
            + ": extra token \""@ + extra.1@ + "\""@,
        ParseProblem::User => "()"@,
    }
}

fn push_place(s: &mut String, unit_name: &str, source: &str, at: usize)
    requires
        at <= source@.len(),
        source@.len() < usize::MAX,
    ensures
        final(s)@ == old(s)@ + place_text(unit_name@, source@, at as int),
{
    let (row, col) = SrcTag(at).row_col(source);
    push_str(s, unit_name);
    push_char(s, ':');
    push_decimal(s, row as u64);
    push_char(s, ':');
    push_decimal(s, col as u64);
    assert(s@ =~= old(s)@ + place_text(unit_name@, source@, at as int));
}

fn push_list(s: &mut String, items: &Vec<String>)
    ensures
        final(s)@ == old(s)@ + list_text(items@),
{
    push_char(s, '[');
    let mut i: usize = 0;
    while i < items.len()
        invariant
            i <= items@.len(),
            s@ == old(s)@ + seq!['['] + list_items(items@.take(i as int)),
        decreases items@.len() - i,
    {
        proof {
            assert(items@.take(i + 1).drop_last() =~= items@.take(i as int));
        }
        if i > 0 {
            push_str(s, ", ");
        }
        push_quoted(s, &items[i]);
        i += 1;
        assert(s@ =~= old(s)@ + seq!['['] + list_items(items@.take(i as int)));
    }
    push_char(s, ']');
    assert(items@.take(i as int) =~= items@);
    assert(s@ =~= old(s)@ + list_text(items@));
}

fn problem_text(unit_name: &str, source: &str, problem: &ParseProblem) -> (r: String)
    requires
        problem_within(*problem, source@.len()),
        source@.len() < usize::MAX,
    ensures
        r@ == problem_message(unit_name@, source@, *problem),
{
    let mut s = String::new();
    match problem {
        ParseProblem::InvalidToken { location } => {
            push_place(&mut s, unit_name, source, *location);
            push_str(&mut s, ": invalid token");
        },
        ParseProblem::UnrecognizedToken { token, expected } => match token {
            Some((start, text)) => {
                push_place(&mut s, unit_name, source, *start);
                push_str(&mut s, ": unexpected token \"");
                push_str(&mut s, text.as_str());
                push_str(&mut s, "\". Expected one of: ");
                push_list(&mut s, expected);
            },
            None => {
                push_str(&mut s, unit_name);
                push_str(&mut s, ": unexpected EOF; expected: ");
                push_list(&mut s, expected);
            },
        },
        ParseProblem::ExtraToken { extra } => {
            push_place(&mut s, unit_name, source, extra.0);
            push_str(&mut s, ": extra token \"");
            push_str(&mut s, extra.1.as_str());
            push_str(&mut s, "\"");
        },
        ParseProblem::User => push_str(&mut s, "()"),
    }
    assert(s@ =~= problem_message(unit_name@, source@, *problem));
    s
}

/// The parse error for the problems that the parser reported on a unit:
/// one message per problem, in order, each placed at its row and column.
pub fn translate_errors(unit_name: &str, source: &str, errors: &Vec<ParseProblem>) -> (r: ErrorKind)
    requires
        forall|i: int| 0 <= i < errors@.len() ==> problem_within(#[trigger] errors@[i], source@.len()),
        source@.len() < usize::MAX,
    ensures
        r matches ErrorKind::ParseError(messages) && messages@.len() == errors@.len() && forall|i: int|
            0 <= i < errors@.len() ==> (#[trigger] messages@[i])@ == problem_message(
                unit_name@,
                source@,
                errors@[i],
            ),
{
    let mut messages: Vec<String> = Vec::new();
    let mut i: usize = 0;
    while i < errors.len()
        invariant
            i <= errors@.len(),
            messages@.len() == i,
            forall|k: int| 0 <= k < errors@.len() ==> problem_within(#[trigger] errors@[k], source@.len()),
            source@.len() < usize::MAX,
            forall|k: int|
                0 <= k < i ==> (#[trigger] messages@[k])@ == problem_message(unit_name@, source@, errors@[k]),
        decreases errors@.len() - i,
    {
        messages.push(problem_text(unit_name, source, &errors[i]));
        i += 1;
    }
    ErrorKind::ParseError(messages)
}

} // verus!
