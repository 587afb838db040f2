use hasselc::base_type::BaseType;
use hasselc::error::{to_compiler_error, unit_of, Error, ErrorKind};
use hasselc::parse::ast::{
    AssignmentData, BinaryOpData, BinaryOperator, CallFunctionData, ConditionalData, DeclareConstData,
    DeclareFunctionData, DeclareVariableData, Expression, GoToData, NameData, NameType, NumberData, OrgData,
    ReturnData, WhileLoopData,
};
use hasselc::src_tag::SrcTag;
use hasselc::ir::generator::generate;
use hasselc::symbol_table::{Location, SymbolTable};
use hasselc::{Compiler, CompilerOptions, CompilerOptionsBuilder};

fn number(tag: usize, value: i32) -> Box<Expression> {
    Box::new(Expression::Number(NumberData::new(SrcTag(tag), value)))
}

fn name(tag: usize, text: &str) -> Box<Expression> {
    Box::new(Expression::Name(NameData::new(SrcTag(tag), text.to_string())))
}

fn declare_variable(tag: usize, text: &str, base_type: BaseType, value: Box<Expression>) -> Expression {
    Expression::DeclareVariable(DeclareVariableData::new(
        SrcTag(tag),
        NameType::new(text.to_string(), base_type),
        value,
    ))
}

fn assign(tag: usize, left: Box<Expression>, right: Box<Expression>) -> Expression {
    Expression::Assignment(AssignmentData::new(SrcTag(tag), left, right))
}

fn binary(tag: usize, op: BinaryOperator, left: Box<Expression>, right: Box<Expression>) -> Box<Expression> {
    Box::new(Expression::BinaryOp(BinaryOpData::new(SrcTag(tag), op, left, right)))
}

fn compile_with(options: CompilerOptions, program: Vec<Expression>) -> Result<hasselc::CompilerOutput, hasselc::error::Error> {
    let mut compiler = Compiler::new(options);
    compiler.add_unit("unit.hsl", &" ".repeat(100), program);
    compiler.compile()
}

fn compile(program: Vec<Expression>) -> Result<hasselc::CompilerOutput, hasselc::error::Error> {
    compile_with(CompilerOptions::default(), program)
}

const INCREMENT_ASSEMBLY: &str = "\n__L000000_:\n\n__L000002_:\n\t; copy Immediate(U8, Number(5)) => FrameOffset(0, 0)\n\tLDA\t#5\n\tLDX\t$00\n\t; add Memory(MemoryData { base_type: U8, location: FrameOffset(0, 0), debug: Some(\"x\") }) + Immediate(U8, Number(1)) => FrameOffset(0, 1)\n\tSTA\t$FE, X\n\tCLC\t\n\tADC\t#1\n\t; copy Memory(MemoryData { base_type: U8, location: FrameOffset(0, 1), debug: None }) => FrameOffset(0, 0)\n\tSTA\t$FE, X\n\tSTA\t$FF, X\n";

fn increment_program() -> Vec<Expression> {
    vec![
        declare_variable(0, "x", BaseType::U8, number(12, 5)),
        assign(15, name(15, "x"), binary(19, BinaryOperator::Add, name(19, "x"), number(23, 1))),
    ]
}

/// The error that compiling the program gives, taken out of its place in
/// the unit when it has one.
fn expect_error(program: Vec<Expression>) -> ErrorKind {
    match compile(program) {
        Err(e) => match e.0 {
            ErrorKind::CompilerError(unit, _, reason) => {
                assert_eq!(unit, "unit.hsl");
                reason.0
            }
            other => other,
        },
        Ok(_) => panic!("the program compiled"),
    }
}

#[test]
fn compile_increment() {
    let output = compile(increment_program()).unwrap();
    assert_eq!(output.assembly.unwrap(), INCREMENT_ASSEMBLY);
    assert_eq!(output.ast.unwrap().len(), 2);
    assert!(output.ir.is_some());
    assert!(output.llir.is_some());
    assert!(output.code.is_some());
    assert!(output.asm_map.is_none());
    assert!(output.bytes.is_none());
}

#[test]
fn compile_increment_optimized() {
    let mut builder = CompilerOptionsBuilder::default();
    builder.optimize_llir(true).optimize_code(true);
    let options = builder.build().unwrap();
    assert!(options.optimize_llir && options.optimize_code);
    let output = compile_with(options, increment_program()).unwrap();
    // each statement's code starts after its comment, so no store is
    // followed by a reload of the same place
    assert_eq!(output.assembly.unwrap(), INCREMENT_ASSEMBLY);
}

#[test]
fn compile_vectors() {
    let mut builder = CompilerOptionsBuilder::default();
    builder.vector_reset_label(Some("main".to_string())).vector_nmi_label(Some("nmi".to_string()));
    let options = builder.build().unwrap();
    let output = compile_with(options, increment_program()).unwrap();
    let expected = format!("{}\n.org\t$FFFA\n.vector\tnmi\n.vector\tmain\n.vector\tmain\n", INCREMENT_ASSEMBLY);
    assert_eq!(output.assembly.unwrap(), expected);
}

#[test]
fn compile_function_call() {
    let program = vec![
        Expression::DeclareFunction(DeclareFunctionData::new(
            SrcTag(0),
            "double".to_string(),
            vec![NameType::new("a".to_string(), BaseType::U8)],
            BaseType::U8,
            vec![Expression::Return(ReturnData::new(
                SrcTag(30),
                Some(binary(37, BinaryOperator::Add, name(37, "a"), name(41, "a"))),
            ))],
        )),
        declare_variable(50, "y", BaseType::U8, number(62, 0)),
        Expression::Org(OrgData::new(SrcTag(70), 0x0200)),
        assign(
            80,
            name(80, "y"),
            Box::new(Expression::CallFunction(CallFunctionData::new(
                SrcTag(84),
                "double".to_string(),
                vec![*number(91, 3)],
            ))),
        ),
    ];
    let output = compile(program).unwrap();
    let functions: Vec<String> = output
        .ir
        .as_ref()
        .unwrap()
        .iter()
        .filter(|block| !block.anonymous)
        .map(|block| block.name.clone())
        .collect();
    assert_eq!(functions, vec!["double".to_string()]);
    let assembly = output.assembly.unwrap();
    assert!(assembly.starts_with(".org $0200\n\n\ndouble:\n"), "{}", assembly);
    assert!(assembly.contains("\tJSR\tdouble\n"), "{}", assembly);
    assert!(assembly.contains("\tADC\t$FD, X\n"), "{}", assembly);
    assert!(assembly.contains("\tRTS\t\n"), "{}", assembly);
    assert!(assembly.contains("; jsr JumpRoutineData { tag: SrcTag(84), destination: UnresolvedGlobal(2) }"), "{}", assembly);
}

#[test]
fn compile_loop_and_conditional() {
    let program = vec![
        declare_variable(0, "i", BaseType::U8, number(12, 0)),
        Expression::WhileLoop(WhileLoopData::new(
            SrcTag(15),
            binary(21, BinaryOperator::LessThan, name(21, "i"), number(25, 10)),
            vec![assign(30, name(30, "i"), binary(34, BinaryOperator::Add, name(34, "i"), number(38, 1)))],
        )),
        Expression::Conditional(ConditionalData::new(
            SrcTag(45),
            binary(48, BinaryOperator::Equal, name(48, "i"), number(53, 10)),
            vec![assign(58, name(58, "i"), number(62, 0))],
            vec![],
        )),
    ];
    let assembly = compile(program).unwrap().assembly.unwrap();
    assert!(assembly.contains("\tCMP\t#10\n\tBEQ\t"), "{}", assembly);
    assert!(assembly.contains("\tJMP\t__L000003_\n"), "{}", assembly);
    assert!(assembly.contains("; goto 3\n"), "{}", assembly);
}

#[test]
fn constant_out_of_bounds() {
    let program = vec![Expression::DeclareConst(DeclareConstData::new(
        SrcTag(0),
        NameType::new("C".to_string(), BaseType::U8),
        number(14, 300),
    ))];
    assert!(matches!(expect_error(program), ErrorKind::OutOfBounds(SrcTag(14), 300, 0, 255)));
}

#[test]
fn constant_void() {
    let program = vec![Expression::DeclareConst(DeclareConstData::new(
        SrcTag(3),
        NameType::new("C".to_string(), BaseType::Void),
        number(14, 1),
    ))];
    assert!(matches!(expect_error(program), ErrorKind::ConstCantBeVoid(SrcTag(14))));
}

#[test]
fn constant_division_by_zero() {
    let program = vec![Expression::DeclareConst(DeclareConstData::new(
        SrcTag(0),
        NameType::new("C".to_string(), BaseType::U8),
        binary(14, BinaryOperator::Div, number(14, 6), number(18, 0)),
    ))];
    assert!(matches!(expect_error(program), ErrorKind::ConstEvaluationFailed(SrcTag(14))));
}

#[test]
fn constant_used_as_value() {
    let program = vec![
        Expression::DeclareConst(DeclareConstData::new(
            SrcTag(0),
            NameType::new("C".to_string(), BaseType::U8),
            binary(14, BinaryOperator::Mul, number(14, 6), number(18, 7)),
        )),
        declare_variable(20, "x", BaseType::U8, name(32, "C")),
    ];
    let assembly = compile(program).unwrap().assembly.unwrap();
    assert!(assembly.contains("\tLDA\t#42\n"), "{}", assembly);
}

#[test]
fn undeclared_name() {
    let program = vec![assign(7, name(7, "x"), number(11, 1))];
    match expect_error(program) {
        ErrorKind::SymbolNotFound(tag, symbol) => {
            assert_eq!(tag, SrcTag(7));
            assert_eq!(symbol, "x");
        }
        other => panic!("{:?}", other),
    }
}

#[test]
fn duplicate_variable() {
    let program = vec![
        declare_variable(0, "x", BaseType::U8, number(12, 5)),
        declare_variable(15, "x", BaseType::U8, number(27, 6)),
    ];
    match expect_error(program) {
        ErrorKind::DuplicateSymbol(tag, symbol) => {
            assert_eq!(tag, SrcTag(15));
            assert_eq!(symbol, "x");
        }
        other => panic!("{:?}", other),
    }
}

#[test]
fn assign_wider_type() {
    let program = vec![
        declare_variable(0, "a", BaseType::U8, number(12, 0)),
        declare_variable(15, "b", BaseType::U16, number(28, 0)),
        assign(31, name(31, "a"), name(35, "b")),
    ];
    match expect_error(program) {
        ErrorKind::TypeExprError(tag, message) => {
            assert_eq!(tag, SrcTag(31));
            assert_eq!(message, "Can't assign u16 into u8");
        }
        other => panic!("{:?}", other),
    }
}

#[test]
fn condition_not_boolean() {
    let program = vec![
        Expression::DeclareFunction(DeclareFunctionData::new(SrcTag(0), "f".to_string(), vec![], BaseType::Void, vec![])),
        Expression::WhileLoop(WhileLoopData::new(
            SrcTag(15),
            Box::new(Expression::CallFunction(CallFunctionData::new(SrcTag(21), "f".to_string(), vec![]))),
            vec![],
        )),
    ];
    match expect_error(program) {
        ErrorKind::TypeExprError(tag, message) => {
            assert_eq!(tag, SrcTag(15));
            assert_eq!(message, "Condition can't evaluate to a boolean");
        }
        other => panic!("{:?}", other),
    }
}

#[test]
fn wrong_argument_count() {
    let program = vec![
        Expression::DeclareFunction(DeclareFunctionData::new(
            SrcTag(0),
            "f".to_string(),
            vec![NameType::new("a".to_string(), BaseType::U8)],
            BaseType::Void,
            vec![],
        )),
        Expression::CallFunction(CallFunctionData::new(SrcTag(40), "f".to_string(), vec![])),
    ];
    match expect_error(program) {
        ErrorKind::ExpectedNArgumentsGotM(tag, function, expected, got) => {
            assert_eq!(tag, SrcTag(40));
            assert_eq!(function, "f");
            assert_eq!((expected, got), (1, 0));
        }
        other => panic!("{:?}", other),
    }
}

#[test]
fn org_below_range() {
    let program = vec![Expression::Org(OrgData::new(SrcTag(9), 0x0100))];
    assert!(matches!(expect_error(program), ErrorKind::OrgOutOfRange(SrcTag(9))));
}

#[test]
fn org_above_range() {
    let program = vec![Expression::Org(OrgData::new(SrcTag(9), 0x10000))];
    assert!(matches!(expect_error(program), ErrorKind::OrgOutOfRange(SrcTag(9))));
}

#[test]
fn org_range_edges() {
    let below = vec![Expression::Org(OrgData::new(SrcTag(4), 0x01FF))];
    assert!(matches!(expect_error(below), ErrorKind::OrgOutOfRange(SrcTag(4))));
    assert!(compile(vec![Expression::Org(OrgData::new(SrcTag(4), 0x0200))]).is_ok());
    assert!(compile(vec![Expression::Org(OrgData::new(SrcTag(4), 0xFFFF))]).is_ok());
}

#[test]
fn goto_to_unknown_label_fails_to_compile() {
    let program = vec![Expression::GoTo(GoToData::new(SrcTag(3), "nowhere".to_string()))];
    match expect_error(program) {
        ErrorKind::SymbolNotFound(tag, name) => {
            assert_eq!(tag, SrcTag(3));
            assert_eq!(name, "nowhere");
        }
        other => panic!("{:?}", other),
    }
}

#[test]
fn options_default() {
    let options = CompilerOptionsBuilder::default().build().unwrap();
    assert!(!options.optimize_llir);
    assert!(!options.optimize_code);
    assert!(options.vector_reset_label.is_none());
    assert!(options.vector_irq_label.is_none());
    assert!(options.vector_nmi_label.is_none());
}

fn empty_function(tag: usize, text: &str) -> Expression {
    Expression::DeclareFunction(DeclareFunctionData::new(
        SrcTag(tag),
        text.to_string(),
        vec![],
        BaseType::Void,
        vec![Expression::Return(ReturnData::new(SrcTag(tag + 20), None))],
    ))
}

#[test]
fn function_takes_over_empty_placed_block() {
    let program = vec![Expression::Org(OrgData::new(SrcTag(0), 0x0300)), empty_function(10, "f")];
    let ir = compile(program).unwrap().ir.unwrap();
    assert_eq!(ir.len(), 1);
    assert!(!ir[0].anonymous);
    assert_eq!(ir[0].name, "f");
    assert!(matches!(ir[0].location, Some(Location::Global(0x0300))));
    assert_eq!(ir[0].body.len(), 1);
}

#[test]
fn top_level_code_keeps_its_block() {
    let program = vec![declare_variable(0, "x", BaseType::U8, number(12, 5)), empty_function(20, "f")];
    let ir = compile(program).unwrap().ir.unwrap();
    assert_eq!(ir.len(), 2);
    assert!(ir[0].anonymous);
    assert_eq!(ir[0].body.len(), 1);
    assert!(ir[0].location.is_none());
    assert!(!ir[1].anonymous);
    assert_eq!(ir[1].name, "f");
    assert!(ir[1].location.is_none());
}

#[test]
fn optimization_levels_from_arguments() {
    let none = hasselc::compiler::options_from_arguments(None, None, None, None);
    assert!(!none.optimize_llir && !none.optimize_code);
    let one = hasselc::compiler::options_from_arguments(Some("1".to_string()), None, None, None);
    assert!(one.optimize_llir && !one.optimize_code);
    let two = hasselc::compiler::options_from_arguments(Some("2".to_string()), None, None, None);
    assert!(two.optimize_llir && two.optimize_code);
    let other = hasselc::compiler::options_from_arguments(Some("12".to_string()), None, None, None);
    assert!(!other.optimize_llir && !other.optimize_code);
    let vectors = hasselc::compiler::options_from_arguments(
        None,
        Some("start".to_string()),
        Some("irq".to_string()),
        None,
    );
    assert_eq!(vectors.vector_reset_label, Some("start".to_string()));
    assert_eq!(vectors.vector_irq_label, Some("irq".to_string()));
    assert_eq!(vectors.vector_nmi_label, None);
}

#[test]
fn duplicate_function() {
    match expect_error(vec![empty_function(0, "f"), empty_function(40, "f")]) {
        ErrorKind::DuplicateSymbol(tag, name) => {
            assert_eq!(tag, SrcTag(40));
            assert_eq!(name, "f");
        }
        other => panic!("{:?}", other),
    }
}

#[test]
fn duplicate_parameter() {
    let program = vec![Expression::DeclareFunction(DeclareFunctionData::new(
        SrcTag(5),
        "f".to_string(),
        vec![
            NameType::new("a".to_string(), BaseType::U8),
            NameType::new("b".to_string(), BaseType::U8),
            NameType::new("a".to_string(), BaseType::U16),
        ],
        BaseType::Void,
        vec![Expression::Return(ReturnData::new(SrcTag(30), None))],
    ))];
    match expect_error(program) {
        ErrorKind::DuplicateSymbol(tag, name) => {
            assert_eq!(tag, SrcTag(5));
            assert_eq!(name, "a");
        }
        other => panic!("{:?}", other),
    }
}

#[test]
fn distinct_parameters_are_accepted() {
    let program = vec![Expression::DeclareFunction(DeclareFunctionData::new(
        SrcTag(5),
        "f".to_string(),
        vec![NameType::new("a".to_string(), BaseType::U8), NameType::new("b".to_string(), BaseType::U8)],
        BaseType::Void,
        vec![Expression::Return(ReturnData::new(SrcTag(30), None))],
    ))];
    assert!(compile(program).is_ok());
}

const EMPTY_ASSEMBLY: &str = "\n__L000000_:\n\n__L000001_:\n";

#[test]
fn no_op_test_unoptimized() {
    let output = compile(vec![]).unwrap();
    assert_eq!(output.ir.unwrap().len(), 1);
    assert_eq!(output.assembly.unwrap(), EMPTY_ASSEMBLY);
}

#[test]
fn no_op_test_optimized() {
    let mut builder = CompilerOptionsBuilder::default();
    builder.optimize_llir(true).optimize_code(true);
    let output = compile_with(builder.build().unwrap(), vec![]).unwrap();
    assert_eq!(output.ir.unwrap().len(), 1);
    assert_eq!(output.assembly.unwrap(), EMPTY_ASSEMBLY);
}

#[test]
fn error_is_placed_in_its_unit() {
    let mut compiler = Compiler::new(CompilerOptions::default());
    compiler.add_unit("first.hsl", "var u8 a = 1\n", vec![declare_variable(0, "a", BaseType::U8, number(11, 1))]);
    compiler.add_unit("second.hsl", "\nb = 2\n", vec![assign(14, name(14, "b"), number(18, 2))]);
    match compiler.compile() {
        Err(e) => match e.0 {
            ErrorKind::CompilerError(unit, row_col, reason) => {
                assert_eq!(unit, "second.hsl");
                assert_eq!(row_col, (2, 1));
                assert!(matches!(reason.0, ErrorKind::SymbolNotFound(SrcTag(14), _)));
            }
            other => panic!("{:?}", other),
        },
        Ok(_) => panic!("the program compiled"),
    }
}

#[test]
fn error_outside_the_texts_is_not_placed() {
    let mut compiler = Compiler::new(CompilerOptions::default());
    compiler.add_unit("short.hsl", "x", vec![Expression::Org(OrgData::new(SrcTag(5), 0x0100))]);
    match compiler.compile() {
        Err(e) => assert!(matches!(e.0, ErrorKind::OrgOutOfRange(SrcTag(5)))),
        Ok(_) => panic!("the program compiled"),
    }
}

#[test]
fn lowering_error_is_not_placed() {
    let program = vec![Expression::GoTo(GoToData::new(SrcTag(3), "nowhere".to_string()))];
    match compile(program) {
        Err(e) => assert!(matches!(e.0, ErrorKind::SymbolNotFound(SrcTag(3), _))),
        Ok(_) => panic!("the program compiled"),
    }
}

#[test]
fn offsets_fall_in_units_in_order() {
    let sources = vec!["ab".to_string(), "cde".to_string()];
    assert_eq!(unit_of(&sources, 0), Some((0, 0)));
    assert_eq!(unit_of(&sources, 2), Some((0, 2)));
    assert_eq!(unit_of(&sources, 3), Some((1, 1)));
    assert_eq!(unit_of(&sources, 5), Some((1, 3)));
    assert_eq!(unit_of(&sources, 6), None);
}

#[test]
fn compiler_error_names_unit_and_place() {
    let names = vec!["a.hsl".to_string(), "b.hsl".to_string()];
    let sources = vec!["x\n".to_string(), "y\nzz".to_string()];
    let err = to_compiler_error(&names, &sources, Error(ErrorKind::OrgOutOfRange(SrcTag(6))));
    match err.0 {
        ErrorKind::CompilerError(unit, row_col, reason) => {
            assert_eq!(unit, "b.hsl");
            assert_eq!(row_col, (2, 3));
            assert!(matches!(reason.0, ErrorKind::OrgOutOfRange(SrcTag(6))));
        }
        other => panic!("{:?}", other),
    }
}

#[test]
fn function_leaves_the_global_frame_as_it_was() {
    let function = Expression::DeclareFunction(DeclareFunctionData::new(
        SrcTag(20),
        "f".to_string(),
        vec![],
        BaseType::Void,
        vec![declare_variable(30, "local", BaseType::U16, number(40, 7))],
    ));
    let program = vec![
        declare_variable(0, "a", BaseType::U8, number(10, 1)),
        function,
        declare_variable(50, "b", BaseType::U8, number(60, 2)),
    ];
    let (_, table) = generate(&program).unwrap();
    let b = table.variable_by_name(&"b".to_string()).unwrap();
    assert!(matches!(b.location, Location::FrameOffset(1)));
}
