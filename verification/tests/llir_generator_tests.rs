use hasselc::base_type::BaseType;
use hasselc::error::ErrorKind;
use hasselc::ir::block::{Expr, GoToData, InlineAsmData, NumberData, ReturnData, Statement, SymbolData};
use hasselc::llir::block::{ImmediateValue, Location, MemoryData, Value};
use hasselc::llir::builder::RunBuilder;
use hasselc::llir::block::Statement as Low;
use hasselc::llir::generator::{generate_runs, resolve_expr_to_location, resolve_expr_to_value};
use hasselc::src_tag::SrcTag;
use hasselc::symbol_table::{self, DefaultSymbolTable, HandleGenerator, SymbolTable, Variable};

fn table_with_variable() -> (DefaultSymbolTable, usize) {
    let mut table = DefaultSymbolTable::new(HandleGenerator::new(), 0);
    let handle = table
        .insert_variable("x".to_string(), Variable::new(BaseType::U8, symbol_table::Location::FrameOffset(3)))
        .unwrap();
    (table, handle)
}

#[test]
fn variable_value_reads_its_place() {
    let (mut table, handle) = table_with_variable();
    let mut builder = RunBuilder::new(&mut table);
    let expr = Expr::Symbol(SymbolData::new(SrcTag(4), handle, Some(BaseType::U8)));
    let value = resolve_expr_to_value(&mut builder, &mut table, 9, &expr).unwrap();
    match value {
        Value::Memory(MemoryData { base_type, location, debug }) => {
            assert!(matches!(base_type, BaseType::U8));
            assert!(matches!(location, Location::FrameOffset(9, 3)));
            assert_eq!(debug, Some("x".to_string()));
        }
        other => panic!("{:?}", other),
    }
    assert_eq!(builder.build()[0].statements.len(), 0);
}

#[test]
fn number_value_is_immediate() {
    let (mut table, _) = table_with_variable();
    let mut builder = RunBuilder::new(&mut table);
    let expr = Expr::Number(NumberData::new(SrcTag(0), 300, Some(BaseType::U16)));
    let value = resolve_expr_to_value(&mut builder, &mut table, 0, &expr).unwrap();
    assert!(matches!(value, Value::Immediate(BaseType::U16, ImmediateValue::Number(300))));
}

#[test]
fn number_without_type_fails() {
    let (mut table, _) = table_with_variable();
    let mut builder = RunBuilder::new(&mut table);
    let expr = Expr::Number(NumberData::new(SrcTag(6), 1, None));
    match resolve_expr_to_value(&mut builder, &mut table, 0, &expr) {
        Err(e) => match e.0 {
            ErrorKind::TypeExprError(tag, message) => {
                assert_eq!(tag, SrcTag(6));
                assert_eq!(message, "Can't infer type of number");
            }
            other => panic!("{:?}", other),
        },
        Ok(v) => panic!("{:?}", v),
    }
}

#[test]
fn variable_location_is_its_place() {
    let (mut table, handle) = table_with_variable();
    let mut builder = RunBuilder::new(&mut table);
    let expr = Expr::Symbol(SymbolData::new(SrcTag(4), handle, Some(BaseType::U8)));
    let location = resolve_expr_to_location(&mut builder, &mut table, 2, &expr).unwrap();
    assert!(matches!(location, Location::FrameOffset(2, 3)));
}

#[test]
fn number_is_no_place() {
    let (mut table, _) = table_with_variable();
    let mut builder = RunBuilder::new(&mut table);
    let expr = Expr::Number(NumberData::new(SrcTag(8), 1, Some(BaseType::U8)));
    match resolve_expr_to_location(&mut builder, &mut table, 0, &expr) {
        Err(e) => assert!(matches!(e.0, ErrorKind::InvalidLeftValue(SrcTag(8)))),
        Ok(l) => panic!("{:?}", l),
    }
}

use hasselc::llir::binop::BinopGenerator;
use hasselc::parse::ast::BinaryOperator;

fn word(name: &str, offset: i8) -> Value {
    Value::Memory(MemoryData::new(BaseType::U16, Location::FrameOffset(0, offset), Some(name.to_string())))
}

#[test]
fn sixteen_bit_addition_goes_byte_by_byte() {
    let (mut table, _) = table_with_variable();
    let mut builder = RunBuilder::new(&mut table);
    let generator = BinopGenerator::new(
        0,
        SrcTag(1),
        BaseType::U16,
        Location::FrameOffset(0, 4),
        word("a", 0),
        Value::Immediate(BaseType::U16, ImmediateValue::Number(0x1234)),
    );
    generator.generate(&mut builder, &mut table, BinaryOperator::Add).unwrap();
    let runs = builder.build();
    assert_eq!(runs.len(), 1);
    let texts: Vec<String> = runs[0].statements.iter().map(|s| s.describe()).collect();
    assert_eq!(
        texts,
        vec![
            "add Memory(MemoryData { base_type: U16, location: FrameOffset(0, 0), debug: Some(\"lo:a\") }) + Immediate(U8, Number(52)) => FrameOffset(0, 4)".to_string(),
            "add Memory(MemoryData { base_type: U16, location: FrameOffset(0, 1), debug: Some(\"hi:a\") }) + Immediate(U8, Number(18)) => FrameOffset(0, 5)".to_string(),
        ]
    );
}

#[test]
fn byte_comparison_adds_four_runs() {
    let (mut table, _) = table_with_variable();
    let mut builder = RunBuilder::new(&mut table);
    let generator = BinopGenerator::new(
        0,
        SrcTag(2),
        BaseType::U8,
        Location::FrameOffset(0, 6),
        Value::Immediate(BaseType::U8, ImmediateValue::Number(3)),
        Value::Immediate(BaseType::U8, ImmediateValue::Number(4)),
    );
    generator.generate(&mut builder, &mut table, BinaryOperator::GreaterThan).unwrap();
    let runs = builder.build();
    assert_eq!(runs.len(), 5);
    // `>` compares with its operands swapped and branches on the carry
    assert_eq!(
        runs[1].statements[0].describe(),
        format!(
            "compare Immediate(U8, Number(4)) with Immediate(U8, Number(3)), on Carry set => Some({}), clear => None",
            runs[3].symbol
        )
    );
    assert_eq!(
        runs[2].statements.iter().map(|s| s.describe()).collect::<Vec<String>>(),
        vec![
            "copy Immediate(U8, Number(1)) => FrameOffset(0, 6)".to_string(),
            format!("goto {}", runs[4].symbol),
        ]
    );
    assert_eq!(runs[3].statements[0].describe(), "copy Immediate(U8, Number(0)) => FrameOffset(0, 6)");
    assert!(runs[4].statements.is_empty());
}

#[test]
fn multiplication_is_refused() {
    let (mut table, _) = table_with_variable();
    let mut builder = RunBuilder::new(&mut table);
    let generator = BinopGenerator::new(
        0,
        SrcTag(2),
        BaseType::U8,
        Location::FrameOffset(0, 6),
        Value::Immediate(BaseType::U8, ImmediateValue::Number(3)),
        Value::Immediate(BaseType::U8, ImmediateValue::Number(4)),
    );
    match generator.generate(&mut builder, &mut table, BinaryOperator::Mul) {
        Err(e) => assert!(matches!(e.0, ErrorKind::TypeExprError(SrcTag(2), _))),
        Ok(()) => panic!("multiplication was generated"),
    }
}

#[test]
fn operation_value_is_a_new_temporary() {
    let (mut table, handle) = table_with_variable();
    let mut builder = RunBuilder::new(&mut table);
    let expr = Expr::BinaryOp(hasselc::ir::block::BinaryOpData::new(
        SrcTag(5),
        BinaryOperator::Add,
        Box::new(Expr::Symbol(SymbolData::new(SrcTag(5), handle, Some(BaseType::U8)))),
        Box::new(Expr::Number(NumberData::new(SrcTag(9), 1, Some(BaseType::U8)))),
        Some(BaseType::U8),
    ));
    let value = resolve_expr_to_value(&mut builder, &mut table, 9, &expr).unwrap();
    match value {
        Value::Memory(MemoryData { base_type, location, debug }) => {
            assert!(matches!(base_type, BaseType::U8));
            assert!(matches!(location, Location::FrameOffset(9, 0)));
            assert!(debug.is_none());
        }
        other => panic!("{:?}", other),
    }
    let runs = builder.build();
    assert_eq!(runs.len(), 1);
    assert_eq!(
        runs[0].statements.iter().map(|s| s.describe()).collect::<Vec<String>>(),
        vec!["add Memory(MemoryData { base_type: U8, location: FrameOffset(9, 3), debug: Some(\"x\") }) + Immediate(U8, Number(1)) => FrameOffset(9, 0)".to_string()]
    );
}

#[test]
fn inline_assembly_and_return_stay_in_one_run() {
    let (mut table, _) = table_with_variable();
    let input = vec![
        Statement::InlineAsm(InlineAsmData::new(SrcTag(2), "NOP".to_string())),
        Statement::Return(ReturnData::new(SrcTag(7), None, None)),
    ];
    let runs = generate_runs(&mut table, 0, &input).unwrap();
    assert_eq!(runs.len(), 1);
    assert_eq!(runs[0].statements.len(), 2);
    match &runs[0].statements[0] {
        Low::InlineAsm(data) => {
            assert_eq!(data.tag, SrcTag(2));
            assert_eq!(data.text, "NOP");
        }
        other => panic!("{:?}", other),
    }
    assert!(matches!(&runs[0].statements[1], Low::Return(data) if data.tag == SrcTag(7)));
}

#[test]
fn break_is_refused() {
    let (mut table, _) = table_with_variable();
    let input = vec![Statement::Break];
    match generate_runs(&mut table, 0, &input) {
        Err(e) => assert!(matches!(e.0, ErrorKind::TypeExprError(SrcTag(usize::MAX), _))),
        Ok(runs) => panic!("{:?}", runs),
    }
}

#[test]
fn goto_to_unknown_label_is_refused() {
    let (mut table, _) = table_with_variable();
    let input = vec![Statement::GoTo(GoToData::new(SrcTag(1), "nowhere".to_string()))];
    match generate_runs(&mut table, 0, &input) {
        Err(e) => match e.0 {
            ErrorKind::SymbolNotFound(tag, name) => {
                assert_eq!(tag, SrcTag(1));
                assert_eq!(name, "nowhere");
            }
            other => panic!("{:?}", other),
        },
        Ok(runs) => panic!("{:?}", runs),
    }
}

#[test]
fn byte_operand_is_widened_before_a_sixteen_bit_addition() {
    let (mut table, _) = table_with_variable();
    let mut builder = RunBuilder::new(&mut table);
    let generator = BinopGenerator::new(
        0,
        SrcTag(3),
        BaseType::U16,
        Location::FrameOffset(0, 4),
        Value::Immediate(BaseType::U8, ImmediateValue::Number(5)),
        word("a", 6),
    );
    generator.generate(&mut builder, &mut table, BinaryOperator::Add).unwrap();
    let runs = builder.build();
    assert_eq!(runs.len(), 1);
    let texts: Vec<String> = runs[0].statements.iter().map(|s| s.describe()).collect();
    assert_eq!(
        texts,
        vec![
            "copy Immediate(U8, Number(0)) => FrameOffset(0, 1)".to_string(),
            "copy Immediate(U8, Number(5)) => FrameOffset(0, 0)".to_string(),
            "add Memory(MemoryData { base_type: U16, location: FrameOffset(0, 0), debug: Some(\"lo:tmp_u8_to_u16\") }) + Memory(MemoryData { base_type: U16, location: FrameOffset(0, 6), debug: Some(\"lo:a\") }) => FrameOffset(0, 4)".to_string(),
            "add Memory(MemoryData { base_type: U16, location: FrameOffset(0, 1), debug: Some(\"hi:tmp_u8_to_u16\") }) + Memory(MemoryData { base_type: U16, location: FrameOffset(0, 7), debug: Some(\"hi:a\") }) => FrameOffset(0, 5)".to_string(),
        ]
    );
    assert_eq!(table.variables().len(), 2);
}
