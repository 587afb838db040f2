use hasselc::code::optimizer::optimize_code;
use hasselc::code::{Code, CodeBlock, Global, Parameter};
use hasselc::symbol_table::{DefaultSymbolTable, HandleGenerator, SymbolTable};

/// A global table that names the labels `out` and `loop`, with their handles.
fn labels() -> (DefaultSymbolTable, usize, usize) {
    let mut table = DefaultSymbolTable::new(HandleGenerator::new(), 0);
    let out = table.insert_block("out".to_string()).unwrap();
    let repeat = table.insert_block("loop".to_string()).unwrap();
    (table, out, repeat)
}

fn block(body: Vec<Code>) -> CodeBlock {
    let mut block = CodeBlock::new(Some("start".to_string()), Some(0x0300));
    block.body = body;
    block
}

fn optimized_text(body: Vec<Code>) -> String {
    let optimized = optimize_code(&[block(body)]).unwrap();
    assert_eq!(optimized.len(), 1);
    assert_eq!(optimized[0].name, Some("start".to_string()));
    optimized[0].to_asm(&labels().0).unwrap()
}

#[test]
fn store_then_load_of_same_place_drops_the_load() {
    let text = optimized_text(vec![
        Code::Sta(Parameter::ZeroPage(5)),
        Code::Lda(Parameter::ZeroPage(5)),
        Code::Lda(Parameter::ZeroPage(6)),
    ]);
    assert_eq!(text, ".org $0300\n\n\nstart:\n\tSTA\t$05\n\tLDA\t$06\n");
}

#[test]
fn load_of_another_place_stays() {
    let text = optimized_text(vec![Code::Sta(Parameter::ZeroPage(5)), Code::Lda(Parameter::ZeroPage(7))]);
    assert_eq!(text, ".org $0300\n\n\nstart:\n\tSTA\t$05\n\tLDA\t$07\n");
}

#[test]
fn repeated_reloads_all_go() {
    let text = optimized_text(vec![
        Code::Sta(Parameter::Absolute(Global::Resolved(0x1234))),
        Code::Lda(Parameter::Absolute(Global::Resolved(0x1234))),
        Code::Sta(Parameter::Absolute(Global::Resolved(0x1234))),
        Code::Lda(Parameter::Absolute(Global::Resolved(0x1234))),
    ]);
    assert_eq!(text, ".org $0300\n\n\nstart:\n\tSTA\t$1234\n\tSTA\t$1234\n");
}

#[test]
fn comment_between_keeps_the_load() {
    let text = optimized_text(vec![
        Code::Sta(Parameter::ZeroPage(5)),
        Code::Comment("next".to_string()),
        Code::Lda(Parameter::ZeroPage(5)),
    ]);
    assert_eq!(text, ".org $0300\n\n\nstart:\n\tSTA\t$05\n\t; next\n\tLDA\t$05\n");
}

#[test]
fn branch_between_keeps_the_load() {
    let text = optimized_text(vec![
        Code::Sta(Parameter::ZeroPage(5)),
        Code::Beq(Parameter::Absolute(Global::UnresolvedSymbol(labels().1))),
        Code::Lda(Parameter::ZeroPage(5)),
    ]);
    assert_eq!(text, ".org $0300\n\n\nstart:\n\tSTA\t$05\n\tBEQ\tout\n\tLDA\t$05\n");
}

#[test]
fn optimizing_twice_changes_nothing() {
    let (table, _, repeat) = labels();
    let body = vec![
        Code::Sta(Parameter::ZeroPage(5)),
        Code::Lda(Parameter::ZeroPage(5)),
        Code::Lda(Parameter::ZeroPage(5)),
        Code::Jmp(Parameter::Absolute(Global::UnresolvedSymbol(repeat))),
        Code::Sta(Parameter::ZeroPage(6)),
        Code::Lda(Parameter::ZeroPage(6)),
    ];
    let once = optimize_code(&[block(body)]).unwrap();
    let twice = optimize_code(&once).unwrap();
    let text = once[0].to_asm(&table).unwrap();
    assert_eq!(text, ".org $0300\n\n\nstart:\n\tSTA\t$05\n\tJMP\tloop\n\tSTA\t$06\n");
    assert_eq!(twice[0].to_asm(&table).unwrap(), text);
}
