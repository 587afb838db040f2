use vstd::prelude::*;
use crate::error::Error;
use crate::code::generator::name_in;
use crate::symbol_table::{scope_data, SymbolEntry, SymbolName, SymbolRef, SymbolTable};
use crate::text::{decimal_text, hex_text, push_char, push_decimal, push_hex};

verus! {

/// An absolute address, or a name that the assembler resolves into one.
#[derive(Debug)]
pub enum Global {
    Resolved(u16),
    UnresolvedBlock,
    UnresolvedSymbol(SymbolRef),
    UnresolvedSymbolHighByte(SymbolRef),
    UnresolvedSymbolLowByte(SymbolRef),
}

/// The operand of a 6502 instruction, by addressing mode.
#[derive(Debug)]
pub enum Parameter {
    Implicit,
    Accumulator,
    Immediate(u8),
    ZeroPage(u8),
    ZeroPageX(i8),
    ZeroPageY(i8),
    Relative(i8),
    Absolute(Global),
    AbsoluteX(Global),
    AbsoluteY(Global),
    Indirect(Global),
    IndirectX(i8),
    IndirectY(i8),
}

/// One line of 6502 assembly.
#[derive(Debug)]
pub enum Code {
    Adc(Parameter),
    And(Parameter),
    Bcc(Parameter),
    Bcs(Parameter),
    Beq(Parameter),
    Bne(Parameter),
    Clc(Parameter),
    Cmp(Parameter),
    Eor(Parameter),
    Jmp(Parameter),
    Jsr(Parameter),
    Lda(Parameter),
    Ldx(Parameter),
    Ldy(Parameter),
    Php(Parameter),
    Pla(Parameter),
    Ror(Parameter),
    Rts(Parameter),
    Sbc(Parameter),
    Sec(Parameter),
    Sta(Parameter),
    Stx(Parameter),
    Sty(Parameter),
    Tax(Parameter),
    Tay(Parameter),
    Txa(Parameter),
    Tya(Parameter),
    Comment(String),
    InlineAsm(String),
}

/// Two addresses are the same when they name the same address or label.
pub open spec fn same_global(a: Global, b: Global) -> bool {
    match (a, b) {
        (Global::Resolved(x), Global::Resolved(y)) => x == y,
        (Global::UnresolvedBlock, Global::UnresolvedBlock) => true,
        (Global::UnresolvedSymbol(x), Global::UnresolvedSymbol(y)) => x == y,
        (Global::UnresolvedSymbolHighByte(x), Global::UnresolvedSymbolHighByte(y)) => x == y,
        (Global::UnresolvedSymbolLowByte(x), Global::UnresolvedSymbolLowByte(y)) => x == y,
        _ => false,
    }
}

/// Two operands are the same when they use the same addressing mode on the
/// same address or value.
pub open spec fn same_parameter(a: Parameter, b: Parameter) -> bool {
    match (a, b) {
        (Parameter::Implicit, Parameter::Implicit) => true,
        (Parameter::Accumulator, Parameter::Accumulator) => true,
        (Parameter::Immediate(x), Parameter::Immediate(y)) => x == y,
        (Parameter::ZeroPage(x), Parameter::ZeroPage(y)) => x == y,
        (Parameter::ZeroPageX(x), Parameter::ZeroPageX(y)) => x == y,
        (Parameter::ZeroPageY(x), Parameter::ZeroPageY(y)) => x == y,
        (Parameter::Relative(x), Parameter::Relative(y)) => x == y,
        (Parameter::Absolute(x), Parameter::Absolute(y)) => same_global(x, y),
        (Parameter::AbsoluteX(x), Parameter::AbsoluteX(y)) => same_global(x, y),
        (Parameter::AbsoluteY(x), Parameter::AbsoluteY(y)) => same_global(x, y),
        (Parameter::Indirect(x), Parameter::Indirect(y)) => same_global(x, y),
        (Parameter::IndirectX(x), Parameter::IndirectX(y)) => x == y,
        (Parameter::IndirectY(x), Parameter::IndirectY(y)) => x == y,
        _ => false,
    }
}

/// The name of the symbol with the given handle in the global table, as
/// the assembler knows it; empty when there is none.
pub open spec fn symbol_label(scopes: Seq<Seq<SymbolEntry>>, r: SymbolRef) -> Seq<char> {
    match name_in(scopes, r) {
        Some(n) => n@,
        None => Seq::empty(),
    }
}

/// Whether the symbol an address refers to, if any, has a name in the
/// global table.
pub open spec fn global_named(g: Global, scopes: Seq<Seq<SymbolEntry>>) -> bool {
    match g {
        Global::UnresolvedSymbol(r) | Global::UnresolvedSymbolHighByte(r) | Global::UnresolvedSymbolLowByte(r) => name_in(
            scopes,
            r,
        ) is Some,
        _ => true,
    }
}

/// Whether the symbol an operand refers to, if any, has a name in the
/// global table.
pub open spec fn parameter_named(p: Parameter, scopes: Seq<Seq<SymbolEntry>>) -> bool {
    match p {
        Parameter::Absolute(g) | Parameter::AbsoluteX(g) | Parameter::AbsoluteY(g) | Parameter::Indirect(g) => global_named(
            g,
            scopes,
        ),
        _ => true,
    }
}

/// The assembly text of an address; a symbol is printed by its name in the
/// global table.
pub open spec fn global_text(g: Global, scopes: Seq<Seq<SymbolEntry>>) -> Seq<char> {
    match g {
        Global::Resolved(v) => seq!['$'] + hex_text(v as nat, 4),
        Global::UnresolvedBlock => seq![
            'U',
            'N',
            'R',
            'E',
            'S',
            'O',
            'L',
            'V',
            'E',
            'D',
            '_',
            'B',
            'L',
            'O',
            'C',
            'K',
        ],
        Global::UnresolvedSymbol(r) => symbol_label(scopes, r),
        Global::UnresolvedSymbolHighByte(r) => seq!['#', '>'] + symbol_label(scopes, r),
        Global::UnresolvedSymbolLowByte(r) => seq!['#', '<'] + symbol_label(scopes, r),
    }
}

/// Whether the assembly printer supports the addressing mode.
pub open spec fn printable(p: Parameter) -> bool {
    !(p is Relative || p is AbsoluteX || p is Indirect)
}

/// The two-digit hexadecimal text of an offset, in two's complement.
pub open spec fn offset_text(v: i8) -> Seq<char> {
    hex_text((v as u8) as nat, 2)
}

/// The assembly text of an operand.
pub open spec fn parameter_text(p: Parameter, scopes: Seq<Seq<SymbolEntry>>) -> Seq<char> {
    match p {
        Parameter::Implicit => Seq::empty(),
        Parameter::Accumulator => seq!['A'],
        Parameter::Immediate(v) => seq!['#'] + decimal_text(v as nat),
        Parameter::ZeroPage(v) => seq!['$'] + hex_text(v as nat, 2),
        Parameter::ZeroPageX(v) => seq!['$'] + offset_text(v) + seq![',', ' ', 'X'],
        Parameter::ZeroPageY(v) => seq!['$'] + offset_text(v) + seq![',', ' ', 'Y'],
        Parameter::Absolute(g) => global_text(g, scopes),
        Parameter::AbsoluteY(g) => global_text(g, scopes) + seq![',', ' ', 'Y'],
        Parameter::IndirectX(v) => seq!['(', '$'] + offset_text(v) + seq![',', ' ', 'X', ')'],
        Parameter::IndirectY(v) => seq!['(', '$'] + offset_text(v) + seq![')', ',', ' ', 'Y'],
        _ => Seq::empty(),
    }
}

/// The mnemonic of an instruction.
pub open spec fn mnemonic(c: Code) -> Seq<char> {
    match c {
        Code::Adc(_) => seq!['A', 'D', 'C'],
        Code::And(_) => seq!['A', 'N', 'D'],
        Code::Bcc(_) => seq!['B', 'C', 'C'],
        Code::Bcs(_) => seq!['B', 'C', 'S'],
        Code::Beq(_) => seq!['B', 'E', 'Q'],
        Code::Bne(_) => seq!['B', 'N', 'E'],
        Code::Clc(_) => seq!['C', 'L', 'C'],
        Code::Cmp(_) => seq!['C', 'M', 'P'],
        Code::Eor(_) => seq!['E', 'O', 'R'],
        Code::Jmp(_) => seq!['J', 'M', 'P'],
        Code::Jsr(_) => seq!['J', 'S', 'R'],
        Code::Lda(_) => seq!['L', 'D', 'A'],
        Code::Ldx(_) => seq!['L', 'D', 'X'],
        Code::Ldy(_) => seq!['L', 'D', 'Y'],
        Code::Php(_) => seq!['P', 'H', 'P'],
        Code::Pla(_) => seq!['P', 'L', 'A'],
        Code::Ror(_) => seq!['R', 'O', 'R'],
        Code::Rts(_) => seq!['R', 'T', 'S'],
        Code::Sbc(_) => seq!['S', 'B', 'C'],
        Code::Sec(_) => seq!['S', 'E', 'C'],
        Code::Sta(_) => seq!['S', 'T', 'A'],
        Code::Stx(_) => seq!['S', 'T', 'X'],
        Code::Sty(_) => seq!['S', 'T', 'Y'],
        Code::Tax(_) => seq!['T', 'A', 'X'],
        Code::Tay(_) => seq!['T', 'A', 'Y'],
        Code::Txa(_) => seq!['T', 'X', 'A'],
        Code::Tya(_) => seq!['T', 'Y', 'A'],
        Code::Comment(_) | Code::InlineAsm(_) => Seq::empty(),
    }
}

/// Whether the line is an instruction, as opposed to a comment or inline assembly.
pub open spec fn is_instruction(c: Code) -> bool {
    !(c is Comment || c is InlineAsm)
}

/// The operand of an instruction.
pub open spec fn operand(c: Code) -> Parameter
    recommends
        is_instruction(c),
{
    match c {
        Code::Adc(p) | Code::And(p) | Code::Bcc(p) | Code::Bcs(p) | Code::Beq(p) | Code::Bne(p)
        | Code::Clc(p) | Code::Cmp(p) | Code::Eor(p) | Code::Jmp(p) | Code::Jsr(p) | Code::Lda(p)
        | Code::Ldx(p) | Code::Ldy(p) | Code::Php(p) | Code::Pla(p) | Code::Ror(p) | Code::Rts(p)
        | Code::Sbc(p) | Code::Sec(p) | Code::Sta(p) | Code::Stx(p) | Code::Sty(p) | Code::Tax(p)
        | Code::Tay(p) | Code::Txa(p) | Code::Tya(p) => p,
        Code::Comment(_) | Code::InlineAsm(_) => Parameter::Implicit,
    }
}

/// Whether the assembly printer can print the line with the names of the
/// global table `scopes`.
pub open spec fn code_printable(c: Code, scopes: Seq<Seq<SymbolEntry>>) -> bool {
    is_instruction(c) ==> printable(operand(c)) && parameter_named(operand(c), scopes)
}

/// The assembly text of one line.
pub open spec fn code_text(c: Code, scopes: Seq<Seq<SymbolEntry>>) -> Seq<char> {
    match c {
        Code::Comment(msg) => seq![';', ' '] + msg@,
        Code::InlineAsm(text) => text@,
        _ => mnemonic(c) + seq!['\t'] + parameter_text(operand(c), scopes),
    }
}

/// Whether the instruction transfers control elsewhere.
pub open spec fn is_branch_code(c: Code) -> bool {
    c is Beq || c is Bne || c is Bcc || c is Bcs || c is Jsr || c is Rts || c is Jmp
}

impl Clone for Global {
    fn clone(&self) -> (r: Global)
        ensures
            r == *self,
    {
        match self {
            Global::Resolved(v) => Global::Resolved(*v),
            Global::UnresolvedBlock => Global::UnresolvedBlock,
            Global::UnresolvedSymbol(n) => Global::UnresolvedSymbol(*n),
            Global::UnresolvedSymbolHighByte(n) => Global::UnresolvedSymbolHighByte(*n),
            Global::UnresolvedSymbolLowByte(n) => Global::UnresolvedSymbolLowByte(*n),
        }
    }
}

impl PartialEq for Global {
    fn eq(&self, other: &Global) -> (r: bool) {
        match (self, other) {
            (Global::Resolved(x), Global::Resolved(y)) => *x == *y,
            (Global::UnresolvedBlock, Global::UnresolvedBlock) => true,
            (Global::UnresolvedSymbol(x), Global::UnresolvedSymbol(y)) => *x == *y,
            (Global::UnresolvedSymbolHighByte(x), Global::UnresolvedSymbolHighByte(y)) => *x == *y,
            (Global::UnresolvedSymbolLowByte(x), Global::UnresolvedSymbolLowByte(y)) => *x == *y,
            _ => false,
        }
    }
}

impl Eq for Global {}

impl vstd::std_specs::cmp::PartialEqSpecImpl for Global {
    open spec fn obeys_eq_spec() -> bool {
        true
    }

    open spec fn eq_spec(&self, other: &Global) -> bool {
        same_global(*self, *other)
    }
}

impl Global {
    /// Appends the assembly text of this address, printing a symbol by its
    /// name in the global table.
    pub fn push_asm<T: SymbolTable>(&self, s: &mut String, global_symbol_table: &T)
        requires
            global_named(*self, global_symbol_table.scopes()),
        ensures
            final(s)@ == old(s)@ + global_text(*self, global_symbol_table.scopes()),
    {
        match self {
            Global::Resolved(v) => {
                push_char(s, '$');
                push_hex(s, *v as u64, 4);
            },
            Global::UnresolvedBlock => {
                let ghost start = s@;
                push_char(s, 'U');
                push_char(s, 'N');
                push_char(s, 'R');
                push_char(s, 'E');
                push_char(s, 'S');
                push_char(s, 'O');
                push_char(s, 'L');
                push_char(s, 'V');
                push_char(s, 'E');
                push_char(s, 'D');
                push_char(s, '_');
                push_char(s, 'B');
                push_char(s, 'L');
                push_char(s, 'O');
                push_char(s, 'C');
                push_char(s, 'K');
                assert(s@ =~= start + global_text(*self, global_symbol_table.scopes()));
            },
            Global::UnresolvedSymbol(r) => {
                let name = global_symbol_table.get_symbol_name(*r).unwrap();
                s.append(name.as_str());
            },
            Global::UnresolvedSymbolHighByte(r) => {
                let name = global_symbol_table.get_symbol_name(*r).unwrap();
                push_char(s, '#');
                push_char(s, '>');
                s.append(name.as_str());
            },
            Global::UnresolvedSymbolLowByte(r) => {
                let name = global_symbol_table.get_symbol_name(*r).unwrap();
                push_char(s, '#');
                push_char(s, '<');
                s.append(name.as_str());
            },
        }
        assert(s@ =~= old(s)@ + global_text(*self, global_symbol_table.scopes()));
    }
}

impl Clone for Parameter {
    fn clone(&self) -> (r: Parameter)
        ensures
            r == *self,
    {
        match self {
            Parameter::Implicit => Parameter::Implicit,
            Parameter::Accumulator => Parameter::Accumulator,
            Parameter::Immediate(v) => Parameter::Immediate(*v),
            Parameter::ZeroPage(v) => Parameter::ZeroPage(*v),
            Parameter::ZeroPageX(v) => Parameter::ZeroPageX(*v),
            Parameter::ZeroPageY(v) => Parameter::ZeroPageY(*v),
            Parameter::Relative(v) => Parameter::Relative(*v),
            Parameter::Absolute(g) => Parameter::Absolute(g.clone()),
            Parameter::AbsoluteX(g) => Parameter::AbsoluteX(g.clone()),
            Parameter::AbsoluteY(g) => Parameter::AbsoluteY(g.clone()),
            Parameter::Indirect(g) => Parameter::Indirect(g.clone()),
            Parameter::IndirectX(v) => Parameter::IndirectX(*v),
            Parameter::IndirectY(v) => Parameter::IndirectY(*v),
        }
    }
}

impl PartialEq for Parameter {
    fn eq(&self, other: &Parameter) -> (r: bool) {
        match (self, other) {
            (Parameter::Implicit, Parameter::Implicit) => true,
            (Parameter::Accumulator, Parameter::Accumulator) => true,
            (Parameter::Immediate(x), Parameter::Immediate(y)) => *x == *y,
            (Parameter::ZeroPage(x), Parameter::ZeroPage(y)) => *x == *y,
            (Parameter::ZeroPageX(x), Parameter::ZeroPageX(y)) => *x == *y,
            (Parameter::ZeroPageY(x), Parameter::ZeroPageY(y)) => *x == *y,
            (Parameter::Relative(x), Parameter::Relative(y)) => *x == *y,
            (Parameter::Absolute(x), Parameter::Absolute(y)) => *x == *y,
            (Parameter::AbsoluteX(x), Parameter::AbsoluteX(y)) => *x == *y,
            (Parameter::AbsoluteY(x), Parameter::AbsoluteY(y)) => *x == *y,
            (Parameter::Indirect(x), Parameter::Indirect(y)) => *x == *y,
            (Parameter::IndirectX(x), Parameter::IndirectX(y)) => *x == *y,
            (Parameter::IndirectY(x), Parameter::IndirectY(y)) => *x == *y,
            _ => false,
        }
    }
}

impl Eq for Parameter {}

impl vstd::std_specs::cmp::PartialEqSpecImpl for Parameter {
    open spec fn obeys_eq_spec() -> bool {
        true
    }

    open spec fn eq_spec(&self, other: &Parameter) -> bool {
        same_parameter(*self, *other)
    }
}

fn push_offset(s: &mut String, v: i8)
    ensures
        final(s)@ == old(s)@ + offset_text(v),
{
    push_hex(s, (v as u8) as u64, 2);
}

impl Parameter {
    /// Appends the assembly text of this operand.
    pub fn push_asm<T: SymbolTable>(&self, s: &mut String, global_symbol_table: &T)
        requires
            printable(*self),
            parameter_named(*self, global_symbol_table.scopes()),
        ensures
            final(s)@ == old(s)@ + parameter_text(*self, global_symbol_table.scopes()),
    {
        let ghost start = s@;
        match self {
            Parameter::Implicit => {},
            Parameter::Accumulator => {
                push_char(s, 'A');
            },
            Parameter::Immediate(v) => {
                push_char(s, '#');
                push_decimal(s, *v as u64);
            },
            Parameter::ZeroPage(v) => {
                push_char(s, '$');
                push_hex(s, *v as u64, 2);
            },
            Parameter::ZeroPageX(v) => {
                push_char(s, '$');
                push_offset(s, *v);
                push_char(s, ',');
                push_char(s, ' ');
                push_char(s, 'X');
            },
            Parameter::ZeroPageY(v) => {
                push_char(s, '$');
                push_offset(s, *v);
                push_char(s, ',');
                push_char(s, ' ');
                push_char(s, 'Y');
            },
            Parameter::Absolute(g) => {
                g.push_asm(s, global_symbol_table);
            },
            Parameter::AbsoluteY(g) => {
                g.push_asm(s, global_symbol_table);
                push_char(s, ',');
                push_char(s, ' ');
                push_char(s, 'Y');
            },
            Parameter::IndirectX(v) => {
                push_char(s, '(');
                push_char(s, '$');
                push_offset(s, *v);
                push_char(s, ',');
                push_char(s, ' ');
                push_char(s, 'X');
                push_char(s, ')');
            },
            Parameter::IndirectY(v) => {
                push_char(s, '(');
                push_char(s, '$');
                push_offset(s, *v);
                push_char(s, ')');
                push_char(s, ',');
                push_char(s, ' ');
                push_char(s, 'Y');
            },
            _ => {},
        }
        assert(s@ =~= start + parameter_text(*self, global_symbol_table.scopes()));
    }
}


impl Clone for Code {
    fn clone(&self) -> (r: Code)
        ensures
            r == *self,
    {
        match self {
            Code::Adc(p) => Code::Adc(p.clone()),
            Code::And(p) => Code::And(p.clone()),
            Code::Bcc(p) => Code::Bcc(p.clone()),
            Code::Bcs(p) => Code::Bcs(p.clone()),
            Code::Beq(p) => Code::Beq(p.clone()),
            Code::Bne(p) => Code::Bne(p.clone()),
            Code::Clc(p) => Code::Clc(p.clone()),
            Code::Cmp(p) => Code::Cmp(p.clone()),
            Code::Eor(p) => Code::Eor(p.clone()),
            Code::Jmp(p) => Code::Jmp(p.clone()),
            Code::Jsr(p) => Code::Jsr(p.clone()),
            Code::Lda(p) => Code::Lda(p.clone()),
            Code::Ldx(p) => Code::Ldx(p.clone()),
            Code::Ldy(p) => Code::Ldy(p.clone()),
            Code::Php(p) => Code::Php(p.clone()),
            Code::Pla(p) => Code::Pla(p.clone()),
            Code::Ror(p) => Code::Ror(p.clone()),
            Code::Rts(p) => Code::Rts(p.clone()),
            Code::Sbc(p) => Code::Sbc(p.clone()),
            Code::Sec(p) => Code::Sec(p.clone()),
            Code::Sta(p) => Code::Sta(p.clone()),
            Code::Stx(p) => Code::Stx(p.clone()),
            Code::Sty(p) => Code::Sty(p.clone()),
            Code::Tax(p) => Code::Tax(p.clone()),
            Code::Tay(p) => Code::Tay(p.clone()),
            Code::Txa(p) => Code::Txa(p.clone()),
            Code::Tya(p) => Code::Tya(p.clone()),
            Code::Comment(m) => Code::Comment(m.clone()),
            Code::InlineAsm(m) => Code::InlineAsm(m.clone()),
        }
    }
}

fn push3(s: &mut String, a: char, b: char, c: char)
    ensures
        final(s)@ == old(s)@ + seq![a, b, c],
{
    push_char(s, a);
    push_char(s, b);
    push_char(s, c);
    assert(s@ =~= old(s)@ + seq![a, b, c]);
}

impl Code {
    pub fn parameter(&self) -> (r: &Parameter)
        requires
            is_instruction(*self),
        ensures
            *r == operand(*self),
    {
        match self {
            Code::Adc(p) | Code::And(p) | Code::Bcc(p) | Code::Bcs(p) | Code::Beq(p) | Code::Bne(p)
            | Code::Clc(p) | Code::Cmp(p) | Code::Eor(p) | Code::Jmp(p) | Code::Jsr(p) | Code::Lda(p)
            | Code::Ldx(p) | Code::Ldy(p) | Code::Php(p) | Code::Pla(p) | Code::Ror(p) | Code::Rts(p)
            | Code::Sbc(p) | Code::Sec(p) | Code::Sta(p) | Code::Stx(p) | Code::Sty(p) | Code::Tax(p)
            | Code::Tay(p) | Code::Txa(p) | Code::Tya(p) => p,
            Code::Comment(_) | Code::InlineAsm(_) => vstd::pervasive::unreached(),
        }
    }

    pub fn is_branch(&self) -> (r: bool)
        ensures
            r == is_branch_code(*self),
    {
        match self {
            Code::Beq(_) | Code::Bne(_) | Code::Bcc(_) | Code::Bcs(_) | Code::Jsr(_) | Code::Rts(_)
            | Code::Jmp(_) => true,
            _ => false,
        }
    }

    fn push_mnemonic(&self, s: &mut String)
        requires
            is_instruction(*self),
        ensures
            final(s)@ == old(s)@ + mnemonic(*self),
    {
        match self {
            Code::Adc(_) => push3(s, 'A', 'D', 'C'),
            Code::And(_) => push3(s, 'A', 'N', 'D'),
            Code::Bcc(_) => push3(s, 'B', 'C', 'C'),
            Code::Bcs(_) => push3(s, 'B', 'C', 'S'),
            Code::Beq(_) => push3(s, 'B', 'E', 'Q'),
            Code::Bne(_) => push3(s, 'B', 'N', 'E'),
            Code::Clc(_) => push3(s, 'C', 'L', 'C'),
            Code::Cmp(_) => push3(s, 'C', 'M', 'P'),
            Code::Eor(_) => push3(s, 'E', 'O', 'R'),
            Code::Jmp(_) => push3(s, 'J', 'M', 'P'),
            Code::Jsr(_) => push3(s, 'J', 'S', 'R'),
            Code::Lda(_) => push3(s, 'L', 'D', 'A'),
            Code::Ldx(_) => push3(s, 'L', 'D', 'X'),
            Code::Ldy(_) => push3(s, 'L', 'D', 'Y'),
            Code::Php(_) => push3(s, 'P', 'H', 'P'),
            Code::Pla(_) => push3(s, 'P', 'L', 'A'),
            Code::Ror(_) => push3(s, 'R', 'O', 'R'),
            Code::Rts(_) => push3(s, 'R', 'T', 'S'),
            Code::Sbc(_) => push3(s, 'S', 'B', 'C'),
            Code::Sec(_) => push3(s, 'S', 'E', 'C'),
            Code::Sta(_) => push3(s, 'S', 'T', 'A'),
            Code::Stx(_) => push3(s, 'S', 'T', 'X'),
            Code::Sty(_) => push3(s, 'S', 'T', 'Y'),
            Code::Tax(_) => push3(s, 'T', 'A', 'X'),
            Code::Tay(_) => push3(s, 'T', 'A', 'Y'),
            Code::Txa(_) => push3(s, 'T', 'X', 'A'),
            Code::Tya(_) => push3(s, 'T', 'Y', 'A'),
            Code::Comment(_) | Code::InlineAsm(_) => vstd::pervasive::unreached(),
        }
    }

    /// Appends the assembly text of this line.
    pub fn push_asm<T: SymbolTable>(&self, s: &mut String, global_symbol_table: &T)
        requires
            code_printable(*self, global_symbol_table.scopes()),
        ensures
            final(s)@ == old(s)@ + code_text(*self, global_symbol_table.scopes()),
    {
        let ghost start = s@;
        match self {
            Code::Comment(msg) => {
                push_char(s, ';');
                push_char(s, ' ');
                s.append(msg.as_str());
            },
            Code::InlineAsm(text) => {
                s.append(text.as_str());
            },
            _ => {
                self.push_mnemonic(s);
                push_char(s, '\t');
                self.parameter().push_asm(s, global_symbol_table);
            },
        }
        assert(s@ =~= start + code_text(*self, global_symbol_table.scopes()));
    }

    pub fn to_asm<T: SymbolTable>(&self, global_symbol_table: &T) -> (r: String)
        requires
            code_printable(*self, global_symbol_table.scopes()),
        ensures
            r@ == code_text(*self, global_symbol_table.scopes()),
    {
        let mut s = String::new();
        self.push_asm(&mut s, global_symbol_table);
        s
    }
}

/// A labelled run of assembly lines.
#[derive(Debug)]
pub struct CodeBlock {
    pub location: Global,
    pub name: Option<SymbolName>,
    pub body: Vec<Code>,
}

impl Clone for CodeBlock {
    fn clone(&self) -> (r: CodeBlock)
        ensures
            r.location == self.location,
            r.name == self.name,
            r.body@ == self.body@,
    {
        let mut body: Vec<Code> = Vec::new();
        let mut i: usize = 0;
        while i < self.body.len()
            invariant
                i <= self.body.len(),
                body@ == self.body@.take(i as int),
            decreases self.body.len() - i,
        {
            body.push(self.body[i].clone());
            i += 1;
            assert(body@ =~= self.body@.take(i as int));
        }
        assert(body@ =~= self.body@);
        CodeBlock {
            location: self.location.clone(),
            name: match &self.name {
                Some(n) => Some(n.clone()),
                None => None,
            },
            body,
        }
    }
}

/// The assembly text of the lines of a block, each on its own line and
/// indented by a tab.
pub open spec fn body_text(body: Seq<Code>, scopes: Seq<Seq<SymbolEntry>>) -> Seq<char>
    decreases body.len(),
{
    if body.len() == 0 {
        Seq::empty()
    } else {
        body_text(body.drop_last(), scopes) + seq!['\t'] + code_text(body.last(), scopes) + seq!['\n']
    }
}

/// The assembly text of a block: its origin when it has a fixed address,
/// its label when it has a name, then its lines.
pub open spec fn block_text(block: CodeBlock, scopes: Seq<Seq<SymbolEntry>>) -> Seq<char> {
    (if let Global::Resolved(addr) = block.location {
        seq!['.', 'o', 'r', 'g', ' ', '$'] + hex_text(addr as nat, 4) + seq!['\n', '\n']
    } else {
        Seq::empty()
    }) + (if let Some(name) = block.name {
        seq!['\n'] + name@ + seq![':', '\n']
    } else {
        Seq::empty()
    }) + body_text(block.body@, scopes)
}

/// Whether every line of a block can be printed.
pub open spec fn block_printable(block: CodeBlock, scopes: Seq<Seq<SymbolEntry>>) -> bool {
    forall|i: int| 0 <= i < block.body@.len() ==> code_printable(#[trigger] block.body@[i], scopes)
}

impl CodeBlock {
    pub fn new(name: Option<SymbolName>, location: Option<u16>) -> (r: CodeBlock)
        ensures
            r.name == name,
            r.location == match location {
                Some(v) => Global::Resolved(v),
                None => Global::UnresolvedBlock,
            },
            r.body@.len() == 0,
    {
        CodeBlock {
            location: match location {
                Some(val) => Global::Resolved(val),
                None => Global::UnresolvedBlock,
            },
            name: name,
            body: Vec::new(),
        }
    }

    /// Appends the assembly text of this block.
    pub fn push_asm<T: SymbolTable>(&self, s: &mut String, global_symbol_table: &T)
        requires
            block_printable(*self, global_symbol_table.scopes()),
        ensures
            final(s)@ == old(s)@ + block_text(*self, global_symbol_table.scopes()),
    {
        let ghost scopes = global_symbol_table.scopes();
        let ghost start = s@;
        if let Global::Resolved(addr) = &self.location {
            push_char(s, '.');
            push_char(s, 'o');
            push_char(s, 'r');
            push_char(s, 'g');
            push_char(s, ' ');
            push_char(s, '$');
            push_hex(s, *addr as u64, 4);
            push_char(s, '\n');
            push_char(s, '\n');
        }
        if let Some(name) = &self.name {
            push_char(s, '\n');
            s.append(name.as_str());
            push_char(s, ':');
            push_char(s, '\n');
        }
        let ghost head = s@;
        let mut i: usize = 0;
        while i < self.body.len()
            invariant
                i <= self.body.len(),
                block_printable(*self, scopes),
                scopes == global_symbol_table.scopes(),
                s@ == head + body_text(self.body@.take(i as int), scopes),
            decreases self.body.len() - i,
        {
            push_char(s, '\t');
            self.body[i].push_asm(s, global_symbol_table);
            push_char(s, '\n');
            i += 1;
            assert(self.body@.take(i as int).drop_last() =~= self.body@.take(i - 1));
            assert(s@ =~= head + body_text(self.body@.take(i as int), scopes));
        }
        assert(self.body@.take(i as int) =~= self.body@);
        assert(s@ =~= start + block_text(*self, scopes));
    }

    pub fn to_asm<T: SymbolTable>(&self, global_symbol_table: &T) -> (r: Result<String, crate::error::Error>)
        requires
            block_printable(*self, global_symbol_table.scopes()),
        ensures
            r matches Ok(text) && text@ == block_text(*self, global_symbol_table.scopes()),
    {
        let mut s = String::new();
        self.push_asm(&mut s, global_symbol_table);
        Ok(s)
    }
}

/// The text of the blocks, one after another.
pub open spec fn blocks_text(blocks: Seq<CodeBlock>, scopes: Seq<Seq<SymbolEntry>>) -> Seq<char>
    decreases blocks.len(),
{
    if blocks.len() == 0 {
        Seq::empty()
    } else {
        blocks_text(blocks.drop_last(), scopes) + block_text(blocks.last(), scopes)
    }
}

/// The characters of data bytes.
pub open spec fn bytes_text(bytes: Seq<u8>) -> Seq<char> {
    Seq::new(bytes.len(), |i: int| bytes[i] as char)
}

/// The line that lays out a data constant: its label, then its bytes as a
/// string that ends with a zero byte.
pub open spec fn data_line(name: Seq<char>, bytes: Seq<u8>) -> Seq<char> {
    seq!['\n'] + name + seq![':', '\t', '.', 'b', 'y', 't', 'e', '\t', '"'] + bytes_text(bytes) + seq![
        '"',
        ',',
        '0',
        '\n',
    ]
}

/// The lines of the data constants, each under the name of its handle.
pub open spec fn data_text(data: Seq<(SymbolRef, Seq<u8>)>, scopes: Seq<Seq<crate::symbol_table::SymbolEntry>>) -> Option<Seq<char>>
    decreases data.len(),
{
    if data.len() == 0 {
        Some(Seq::empty())
    } else {
        match (data_text(data.drop_last(), scopes), crate::symbol_table::visible_with_ref(scopes, data.last().0)) {
            (Some(t), Some(e)) => Some(t + data_line(e.name@, data.last().1)),
            _ => None,
        }
    }
}

/// The whole assembly program: the blocks, then the data constants of the
/// global scope. Fails when a data constant has no name.
pub fn to_asm<T: SymbolTable>(global_symbol_table: &T, blocks: &Vec<CodeBlock>) -> (r: Result<String, Error>)
    requires
        forall|i: int| 0 <= i < blocks@.len() ==> block_printable(#[trigger] blocks@[i], global_symbol_table.scopes()),
    ensures
        match data_text(scope_data(global_symbol_table.scopes()[0]), global_symbol_table.scopes()) {
            Some(t) => r matches Ok(text) && text@ == blocks_text(blocks@, global_symbol_table.scopes()) + t,
            None => r matches Err(x) && crate::code::generator::code_error(x),
        },
{
    let mut program = String::new();
    let mut i: usize = 0;
    while i < blocks.len()
        invariant
            i <= blocks@.len(),
            forall|k: int| 0 <= k < blocks@.len() ==> block_printable(#[trigger] blocks@[k], global_symbol_table.scopes()),
            program@ == blocks_text(blocks@.take(i as int), global_symbol_table.scopes()),
        decreases blocks@.len() - i,
    {
        proof {
            assert(blocks@.take(i + 1).drop_last() =~= blocks@.take(i as int));
        }
        blocks[i].push_asm(&mut program, global_symbol_table);
        i += 1;
    }
    proof {
        assert(blocks@.take(i as int) =~= blocks@);
    }
    let ghost head = program@;
    let data = global_symbol_table.data_constants();
    let ghost spec_data = scope_data(global_symbol_table.scopes()[0]);
    let mut k: usize = 0;
    while k < data.len()
        invariant
            k <= data@.len(),
            data@.len() == spec_data.len(),
            spec_data == scope_data(global_symbol_table.scopes()[0]),
            forall|j: int|
                0 <= j < data@.len() ==> (#[trigger] data@[j]).0 == spec_data[j].0 && data@[j].1@ == spec_data[j].1,
            data_text(spec_data.take(k as int), global_symbol_table.scopes()) == Some(program@.skip(head.len() as int)),
            program@.len() >= head.len(),
            program@.take(head.len() as int) == head,
        decreases data@.len() - k,
    {
        proof {
            assert(spec_data.take(k + 1).drop_last() =~= spec_data.take(k as int));
            assert(spec_data.take(k + 1).last() == spec_data[k as int]);
        }
        let (symbol_ref, bytes) = &data[k];
        let name = match global_symbol_table.get_symbol_name(*symbol_ref) {
            Some(n) => n,
            None => {
                proof {
                    lemma_data_text_stops(spec_data, global_symbol_table.scopes(), k + 1);
                }
                return Err(crate::llir::common::unsupported(crate::src_tag::SrcTag::invalid(), "A data constant has no name"));
            },
        };
        let ghost before = program@;
        push_char(&mut program, '\n');
        program.append(name.as_str());
        push_char(&mut program, ':');
        push_char(&mut program, '\t');
        push_char(&mut program, '.');
        push_char(&mut program, 'b');
        push_char(&mut program, 'y');
        push_char(&mut program, 't');
        push_char(&mut program, 'e');
        push_char(&mut program, '\t');
        push_char(&mut program, '"');
        let ghost mid = program@;
        let mut b: usize = 0;
        while b < bytes.len()
            invariant
                b <= bytes@.len(),
                program@ == mid + bytes_text(bytes@.take(b as int)),
            decreases bytes@.len() - b,
        {
            push_char(&mut program, bytes[b] as char);
            b += 1;
            proof {
                assert(bytes_text(bytes@.take(b as int)) =~= bytes_text(bytes@.take(b - 1)).push(bytes@[b - 1] as char));
            }
        }
        push_char(&mut program, '"');
        push_char(&mut program, ',');
        push_char(&mut program, '0');
        push_char(&mut program, '\n');
        proof {
            assert(bytes@.take(b as int) =~= bytes@);
            assert(program@ =~= before + data_line(name@, bytes@));
            assert(program@.skip(head.len() as int) =~= before.skip(head.len() as int) + data_line(name@, bytes@));
            assert(program@.take(head.len() as int) =~= head);
        }
        k += 1;
    }
    proof {
        assert(spec_data.take(k as int) =~= spec_data);
        assert(program@ =~= head + program@.skip(head.len() as int));
    }
    Ok(program)
}

/// Once a data constant has no name, the whole data text fails.
proof fn lemma_data_text_stops(
    data: Seq<(SymbolRef, Seq<u8>)>,
    scopes: Seq<Seq<crate::symbol_table::SymbolEntry>>,
    n: int,
)
    requires
        0 <= n <= data.len(),
        data_text(data.take(n), scopes) is None,
    ensures
        data_text(data, scopes) is None,
    decreases data.len() - n,
{
    if n < data.len() {
        assert(data.take(n + 1).drop_last() =~= data.take(n));
        lemma_data_text_stops(data, scopes, n + 1);
    } else {
        assert(data.take(n) =~= data);
    }
}


impl Global {
    /// Whether the symbol the address refers to, if any, has a name in the
    /// global table.
    pub fn is_named<T: SymbolTable>(&self, global_symbol_table: &T) -> (r: bool)
        ensures
            r == global_named(*self, global_symbol_table.scopes()),
    {
        match self {
            Global::UnresolvedSymbol(r) | Global::UnresolvedSymbolHighByte(r) | Global::UnresolvedSymbolLowByte(r) => global_symbol_table.get_symbol_name(*r).is_some(),
            _ => true,
        }
    }
}

impl CodeBlock {
    /// Whether every line of the block can be printed with the names of the
    /// global table.
    pub fn is_printable<T: SymbolTable>(&self, global_symbol_table: &T) -> (r: bool)
        ensures
            r == block_printable(*self, global_symbol_table.scopes()),
    {
        let mut i: usize = 0;
        while i < self.body.len()
            invariant
                i <= self.body@.len(),
                forall|k: int| 0 <= k < i ==> code_printable(#[trigger] self.body@[k], global_symbol_table.scopes()),
            decreases self.body@.len() - i,
        {
            let line = &self.body[i];
            let is_code = match line {
                Code::Comment(_) | Code::InlineAsm(_) => false,
                _ => true,
            };
            if is_code {
                match line.parameter() {
                    Parameter::Relative(_) | Parameter::AbsoluteX(_) | Parameter::Indirect(_) => {
                        return false;
                    },
                    Parameter::Absolute(g) | Parameter::AbsoluteY(g) => {
                        if !g.is_named(global_symbol_table) {
                            return false;
                        }
                    },
                    _ => {},
                }
            }
            i += 1;
        }
        true
    }
}
} // verus!
