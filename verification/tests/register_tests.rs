use hasselc::code::register::{Register, RegisterAllocator};
use hasselc::code::{CodeBlock, Parameter};
use hasselc::symbol_table::{DefaultSymbolTable, HandleGenerator};

fn no_names() -> DefaultSymbolTable {
    DefaultSymbolTable::new(HandleGenerator::new(), 0)
}

#[test]
fn store_then_load_equivalency() {
    let mut code_block = CodeBlock::new(None, None);
    let mut registers = RegisterAllocator::new();

    registers.load(&mut code_block.body, Register::Accum, Parameter::ZeroPage(5));
    registers.add(&mut code_block.body, Parameter::ZeroPage(6));
    registers.save_later(Register::Accum, Parameter::ZeroPage(5));
    registers.load(&mut code_block.body, Register::Accum, Parameter::ZeroPage(5));

    assert_eq!(
        "\
         \tLDA\t$05\n\
         \tCLC\t\n\
         \tADC\t$06\n",
        code_block.to_asm(&no_names()).unwrap()
    );
}

#[test]
fn save_as_necessary_a_only() {
    let mut code_block = CodeBlock::new(None, None);
    let mut registers = RegisterAllocator::new();

    registers.load(&mut code_block.body, Register::Accum, Parameter::Immediate(0));
    registers.save_later(Register::Accum, Parameter::ZeroPage(0));
    registers.load(&mut code_block.body, Register::Accum, Parameter::Immediate(1));

    assert_eq!(
        "\
         \tLDA\t#0\n\
         \tSTA\t$00\n\
         \tLDA\t#1\n",
        code_block.to_asm(&no_names()).unwrap()
    );
}

#[test]
fn save_as_necessary_x_change() {
    let mut code_block = CodeBlock::new(None, None);
    let mut registers = RegisterAllocator::new();

    registers.load(&mut code_block.body, Register::XIndex, Parameter::Immediate(0));
    registers.load(&mut code_block.body, Register::Accum, Parameter::Immediate(5));
    registers.save_later(Register::Accum, Parameter::ZeroPageX(2));
    registers.load(&mut code_block.body, Register::XIndex, Parameter::Immediate(1));

    assert_eq!(
        "\
         \tLDX\t#0\n\
         \tLDA\t#5\n\
         \tSTA\t$02, X\n\
         \tLDX\t#1\n",
        code_block.to_asm(&no_names()).unwrap()
    );
}

#[test]
fn load_twice_emits_once() {
    let mut code = Vec::new();
    let mut registers = RegisterAllocator::new();
    registers.load(&mut code, Register::YIndex, Parameter::ZeroPage(9));
    registers.load(&mut code, Register::YIndex, Parameter::ZeroPage(9));
    assert_eq!(1, code.len());
}

#[test]
fn dsp_is_transferred_between_registers() {
    let mut code_block = CodeBlock::new(None, None);
    let mut registers = RegisterAllocator::new();
    registers.load_dsp(&mut code_block.body, Register::Accum);
    registers.load_dsp(&mut code_block.body, Register::XIndex);
    registers.load_dsp(&mut code_block.body, Register::XIndex);
    assert_eq!("\tLDA\t$00\n\tTAX\t\n\tTAX\t\n", code_block.to_asm(&no_names()).unwrap());
}

#[test]
fn save_all_and_reset_flushes_in_reverse_order() {
    let mut code_block = CodeBlock::new(None, None);
    let mut registers = RegisterAllocator::new();
    registers.load(&mut code_block.body, Register::Accum, Parameter::Immediate(7));
    registers.save_later(Register::Accum, Parameter::ZeroPage(1));
    registers.save_later(Register::Accum, Parameter::ZeroPage(2));
    registers.save_all_and_reset(&mut code_block.body);
    registers.load(&mut code_block.body, Register::Accum, Parameter::Immediate(7));
    assert_eq!(
        "\tLDA\t#7\n\tSTA\t$02\n\tSTA\t$01\n\tLDA\t#7\n",
        code_block.to_asm(&no_names()).unwrap()
    );
}

#[test]
fn register_ordinals_round_trip() {
    for r in [Register::Accum, Register::XIndex, Register::YIndex] {
        assert_eq!(r, Register::from_ordinal(r.ordinal()));
    }
    assert_eq!(2, Register::YIndex.ordinal());
}
