use hasselc::base_type::BaseType;
use hasselc::llir::block::{
    AddToDataStackPointerData, BinaryOpData, BranchFlag, BranchIfZeroData, CarryMode, CompareBranchData,
    CopyData, GoToData, ImmediateValue, InlineAsmData, JumpRoutineData, Location, MemoryData, ReturnData,
    SPOffset, Statement, Value,
};
use hasselc::src_tag::SrcTag;

fn immediate(value: i32) -> Value {
    Value::Immediate(BaseType::U8, ImmediateValue::Number(value))
}

fn variable(name: &str, location: Location) -> Value {
    Value::Memory(MemoryData::new(BaseType::U8, location, Some(name.to_string())))
}

#[test]
fn copy_text() {
    let statement = Statement::Copy(CopyData::new(SrcTag(0), Location::DataStackOffset(-1), immediate(5)));
    assert_eq!(statement.describe(), "copy Immediate(U8, Number(5)) => DataStackOffset(-1)");
}

#[test]
fn copy_text_matches_debug() {
    let value = Value::Memory(MemoryData::new(
        BaseType::Pointer(Box::new(BaseType::U16)),
        Location::GlobalIndexed(512, Box::new(Value::Immediate(BaseType::U8, ImmediateValue::Number(-3)))),
        Some("quote\"back\\slash\ttab".to_string()),
    ));
    let destination = Location::FrameOffsetBeforeCall(4, 5, -128);
    let expected = format!("copy {:?} => {:?}", value, destination);
    let statement = Statement::Copy(CopyData::new(SrcTag(0), destination, value));
    assert_eq!(statement.describe(), expected);
}

#[test]
fn binary_texts() {
    let make = |left: Value, right: Value| BinaryOpData::new(
        SrcTag(1),
        Location::FrameOffset(2, 1),
        left,
        right,
        CarryMode::DontCare,
    );
    let x = || variable("x", Location::FrameOffset(2, 0));
    assert_eq!(
        Statement::Add(make(x(), immediate(1))).describe(),
        "add Memory(MemoryData { base_type: U8, location: FrameOffset(2, 0), debug: Some(\"x\") }) + Immediate(U8, Number(1)) => FrameOffset(2, 1)"
    );
    assert_eq!(
        Statement::Subtract(make(immediate(7), immediate(-2))).describe(),
        "subtract Immediate(U8, Number(7)) - Immediate(U8, Number(-2)) => FrameOffset(2, 1)"
    );
    assert_eq!(
        Statement::CompareEq(make(immediate(1), immediate(2))).describe(),
        "compare Immediate(U8, Number(1)) == Immediate(U8, Number(2)) => FrameOffset(2, 1)"
    );
    assert_eq!(
        Statement::CompareNotEq(make(immediate(1), immediate(2))).describe(),
        "compare Immediate(U8, Number(1)) != Immediate(U8, Number(2)) => FrameOffset(2, 1)"
    );
    assert_eq!(
        Statement::CompareLt(make(immediate(1), immediate(2))).describe(),
        "compare Immediate(U8, Number(1)) < Immediate(U8, Number(2)) => FrameOffset(2, 1)"
    );
    assert_eq!(
        Statement::CompareGte(make(immediate(1), immediate(2))).describe(),
        "compare Immediate(U8, Number(1)) >= Immediate(U8, Number(2)) => FrameOffset(2, 1)"
    );
}

#[test]
fn stack_pointer_and_routine_texts_match_debug() {
    let data = AddToDataStackPointerData::new(SrcTag(84), SPOffset::NegativeFrameSize(2));
    assert_eq!(Statement::AddToDataStackPointer(data).describe(), format!("add_dsp {:?}", data));
    assert_eq!(
        Statement::AddToDataStackPointer(AddToDataStackPointerData::new(SrcTag(3), SPOffset::Immediate(-4))).describe(),
        "add_dsp AddToDataStackPointerData { tag: SrcTag(3), offset: Immediate(-4) }"
    );
    let jump = JumpRoutineData::new(SrcTag(9), Location::UnresolvedGlobal(12));
    let expected = format!("jsr {:?}", jump);
    assert_eq!(Statement::JumpRoutine(jump).describe(), expected);
    assert_eq!(expected, "jsr JumpRoutineData { tag: SrcTag(9), destination: UnresolvedGlobal(12) }");
}

#[test]
fn control_texts() {
    assert_eq!(Statement::GoTo(GoToData::new(SrcTag(0), 17)).describe(), "goto 17");
    assert_eq!(Statement::Return(ReturnData::new(SrcTag(0))).describe(), "rts");
    assert_eq!(
        Statement::InlineAsm(InlineAsmData::new(SrcTag(0), "NOP".to_string())).describe(),
        "inline_asm"
    );
    assert_eq!(
        Statement::BranchIfZero(BranchIfZeroData::new(
            SrcTag(0),
            variable("flag", Location::UnresolvedGlobalLowByte(6)),
            20
        ))
        .describe(),
        "branch to 20 if Memory(MemoryData { base_type: U8, location: UnresolvedGlobalLowByte(6), debug: Some(\"flag\") }) == 0"
    );
    assert_eq!(
        Statement::CompareBranch(CompareBranchData::new(
            SrcTag(0),
            immediate(3),
            immediate(4),
            BranchFlag::Carry,
            None,
            Some(8)
        ))
        .describe(),
        "compare Immediate(U8, Number(3)) with Immediate(U8, Number(4)), on Carry set => None, clear => Some(8)"
    );
}

#[test]
fn location_texts_match_debug() {
    let locations = vec![
        Location::DataStackOffset(127),
        Location::FrameOffset(0, -1),
        Location::FrameOffsetIndirect(3, 2),
        Location::Global(65535),
        Location::UnresolvedGlobalIndexed(1, Box::new(variable("i", Location::DataStackOffset(0)))),
        Location::UnresolvedGlobalHighByte(2),
        Location::UnresolvedBlock,
    ];
    for location in locations {
        let expected = format!("copy {:?} => {:?}", immediate(i32::MIN), location);
        let statement = Statement::Copy(CopyData::new(SrcTag(0), location, immediate(i32::MIN)));
        assert_eq!(statement.describe(), expected);
    }
}
