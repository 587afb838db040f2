use hasselc::code::generator::CodeBlockGenerator;
use hasselc::code::{Code, Global, Parameter};
use hasselc::llir::block::{FrameBlock, GoToData, Location, RunBlock, Statement};
use hasselc::src_tag::SrcTag;
use hasselc::symbol_table::{DefaultSymbolTable, HandleGenerator};

#[test]
fn jump_to_a_label_without_a_name_yet_is_generated() {
    let names = DefaultSymbolTable::new(HandleGenerator::new(), 0);
    let mut frame = FrameBlock::new("main".to_string(), 7, Location::Global(0x0200));
    let mut run = RunBlock::new("__L000008_".to_string(), 8);
    run.statements.push(Statement::GoTo(GoToData::new(SrcTag(3), 99)));
    frame.runs.push(run);
    let frames = vec![frame];
    let code = CodeBlockGenerator::new(&names, &frames).generate().unwrap();
    assert_eq!(code.len(), 2);
    assert!(code[0].body.is_empty());
    assert!(code[1]
        .body
        .iter()
        .any(|line| matches!(line, Code::Jmp(Parameter::Absolute(Global::UnresolvedSymbol(99))))));
    // the label has no name in the table, so the block cannot be printed yet
    assert!(!code[1].is_printable(&names));
}
