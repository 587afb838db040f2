use vstd::prelude::*;
use crate::code::block::{same_parameter, Code, Parameter};

verus! {

/// The address of the data stack pointer.
pub const DATA_STACK_POINTER_LOCATION: u16 = 0x0000;

/// The operand that reads the data stack pointer.
pub open spec fn dsp_param() -> Parameter {
    Parameter::ZeroPage(0u8)
}

/// The operand that reads the data stack pointer.
pub fn dsp_param_exec() -> (r: Parameter)
    ensures
        r == dsp_param(),
{
    Parameter::ZeroPage(DATA_STACK_POINTER_LOCATION as u8)
}

/// A value that a register is known to hold: either the result of an
/// operation (numbered so that results tell apart), or the value of an operand.
#[derive(Debug)]
pub enum RegisterValue {
    Intermediate(usize),
    Param(Parameter),
}

/// Two register values are the same when they are the same result or the
/// same operand.
pub open spec fn same_value(a: RegisterValue, b: RegisterValue) -> bool {
    match (a, b) {
        (RegisterValue::Intermediate(x), RegisterValue::Intermediate(y)) => x == y,
        (RegisterValue::Param(x), RegisterValue::Param(y)) => same_parameter(x, y),
        _ => false,
    }
}

impl Clone for RegisterValue {
    fn clone(&self) -> (r: RegisterValue)
        ensures
            r == *self,
    {
        match self {
            RegisterValue::Intermediate(n) => RegisterValue::Intermediate(*n),
            RegisterValue::Param(p) => RegisterValue::Param(p.clone()),
        }
    }
}

impl PartialEq for RegisterValue {
    fn eq(&self, other: &RegisterValue) -> (r: bool) {
        match (self, other) {
            (RegisterValue::Intermediate(x), RegisterValue::Intermediate(y)) => *x == *y,
            (RegisterValue::Param(x), RegisterValue::Param(y)) => x == y,
            _ => false,
        }
    }
}

impl Eq for RegisterValue {}

impl vstd::std_specs::cmp::PartialEqSpecImpl for RegisterValue {
    open spec fn obeys_eq_spec() -> bool {
        true
    }

    open spec fn eq_spec(&self, other: &RegisterValue) -> bool {
        same_value(*self, *other)
    }
}

/// Whether one of the values is the same as `v`.
pub open spec fn holds(values: Seq<RegisterValue>, v: RegisterValue) -> bool {
    exists|i: int| 0 <= i < values.len() && same_value(#[trigger] values[i], v)
}

/// The values after learning that `v` is among them too.
pub open spec fn with_value(values: Seq<RegisterValue>, v: RegisterValue) -> Seq<RegisterValue> {
    if holds(values, v) {
        values
    } else {
        values.push(v)
    }
}

/// The set of values that one register is known to hold.
pub struct RegisterEquivalency {
    equivalencies: Vec<RegisterValue>,
}

impl View for RegisterEquivalency {
    type V = Seq<RegisterValue>;

    closed spec fn view(&self) -> Seq<RegisterValue> {
        self.equivalencies@
    }
}

impl RegisterEquivalency {
    pub fn new() -> (r: RegisterEquivalency)
        ensures
            r@ == Seq::<RegisterValue>::empty(),
    {
        RegisterEquivalency { equivalencies: Vec::new() }
    }

    /// The register now holds `value` and nothing else.
    pub fn clobber(&mut self, value: RegisterValue)
        ensures
            final(self)@ == seq![value],
    {
        self.equivalencies.clear();
        self.equivalencies.push(value);
        assert(self.equivalencies@ =~= seq![value]);
    }

    /// The register holds `value` too.
    pub fn add_value(&mut self, value: RegisterValue)
        ensures
            final(self)@ == with_value(old(self)@, value),
    {
        if !self.is_equivalent(&value) {
            self.equivalencies.push(value);
        }
    }

    pub fn is_equivalent(&self, value: &RegisterValue) -> (r: bool)
        ensures
            r == holds(self@, *value),
    {
        let mut i: usize = 0;
        while i < self.equivalencies.len()
            invariant
                i <= self.equivalencies@.len(),
                forall|k: int| 0 <= k < i ==> !same_value(self.equivalencies@[k], *value),
            decreases self.equivalencies.len() - i,
        {
            if self.equivalencies[i] == *value {
                return true;
            }
            i += 1;
        }
        false
    }

    pub fn reset(&mut self)
        ensures
            final(self)@ == Seq::<RegisterValue>::empty(),
    {
        self.equivalencies.clear();
    }
}

/// The registers of the 6502.
#[derive(Debug, Copy, Clone, Eq, PartialEq, Structural)]
pub enum Register {
    Accum,
    XIndex,
    YIndex,
}

/// The index of a register in the allocator.
pub open spec fn ordinal_of(r: Register) -> int {
    match r {
        Register::Accum => 0,
        Register::XIndex => 1,
        Register::YIndex => 2,
    }
}

/// The register with a given index.
pub open spec fn register_at(i: int) -> Register {
    if i == 0 {
        Register::Accum
    } else if i == 1 {
        Register::XIndex
    } else {
        Register::YIndex
    }
}

/// The instruction that loads `p` into the register.
pub open spec fn load_code(r: Register, p: Parameter) -> Code {
    match r {
        Register::Accum => Code::Lda(p),
        Register::XIndex => Code::Ldx(p),
        Register::YIndex => Code::Ldy(p),
    }
}

/// The instruction that stores the register into `p`.
pub open spec fn save_code(r: Register, p: Parameter) -> Code {
    match r {
        Register::Accum => Code::Sta(p),
        Register::XIndex => Code::Stx(p),
        Register::YIndex => Code::Sty(p),
    }
}

/// The instruction that copies the register `from` into `to`, where the 6502
/// has one.
pub open spec fn transfer_code(from: Register, to: Register) -> Option<Code> {
    match (from, to) {
        (Register::Accum, Register::XIndex) => Some(Code::Tax(Parameter::Implicit)),
        (Register::Accum, Register::YIndex) => Some(Code::Tay(Parameter::Implicit)),
        (Register::XIndex, Register::Accum) => Some(Code::Txa(Parameter::Implicit)),
        (Register::YIndex, Register::Accum) => Some(Code::Tya(Parameter::Implicit)),
        _ => None,
    }
}

impl Register {
    pub fn ordinal(&self) -> (r: usize)
        ensures
            r == ordinal_of(*self),
    {
        match self {
            Register::Accum => 0,
            Register::XIndex => 1,
            Register::YIndex => 2,
        }
    }

    pub fn from_ordinal(ordinal: usize) -> (r: Register)
        requires
            ordinal < 3,
        ensures
            r == register_at(ordinal as int),
    {
        match ordinal {
            0 => Register::Accum,
            1 => Register::XIndex,
            _ => Register::YIndex,
        }
    }

    pub fn load_op(&self, parameter: Parameter) -> (r: Code)
        ensures
            r == load_code(*self, parameter),
    {
        match self {
            Register::Accum => Code::Lda(parameter),
            Register::XIndex => Code::Ldx(parameter),
            Register::YIndex => Code::Ldy(parameter),
        }
    }

    pub fn save_op(&self, parameter: Parameter) -> (r: Code)
        ensures
            r == save_code(*self, parameter),
    {
        match self {
            Register::Accum => Code::Sta(parameter),
            Register::XIndex => Code::Stx(parameter),
            Register::YIndex => Code::Sty(parameter),
        }
    }

    pub fn to_other(&self, register: Register) -> (r: Option<Code>)
        ensures
            r == transfer_code(*self, register),
    {
        match self {
            Register::Accum => match register {
                Register::Accum => None,
                Register::XIndex => Some(Code::Tax(Parameter::Implicit)),
                Register::YIndex => Some(Code::Tay(Parameter::Implicit)),
            },
            Register::XIndex => match register {
                Register::Accum => Some(Code::Txa(Parameter::Implicit)),
                Register::XIndex | Register::YIndex => None,
            },
            Register::YIndex => match register {
                Register::Accum => Some(Code::Tya(Parameter::Implicit)),
                Register::XIndex | Register::YIndex => None,
            },
        }
    }
}

/// Whether storing into `p` reads the index register `r`.
pub open spec fn location_needs(p: Parameter, r: Register) -> bool {
    ||| (p is AbsoluteX || p is IndirectX || p is ZeroPageX) && r == Register::XIndex
    ||| (p is AbsoluteY || p is IndirectY || p is ZeroPageY) && r == Register::YIndex
}

/// A location that a register is still to be stored into.
pub struct SaveLocation(pub Parameter);

impl SaveLocation {
    /// Whether storing into this location reads the given index register, so
    /// that the store must happen before that register changes.
    pub fn needs_register(&self, register: Register) -> (r: bool)
        ensures
            r == location_needs(self.0, register),
    {
        match self.0 {
            Parameter::AbsoluteX(_) | Parameter::IndirectX(_) | Parameter::ZeroPageX(_) => {
                register == Register::XIndex
            },
            Parameter::AbsoluteY(_) | Parameter::IndirectY(_) | Parameter::ZeroPageY(_) => {
                register == Register::YIndex
            },
            _ => false,
        }
    }
}


/// The stores that spilling a register emits: its pending locations, the most
/// recently requested first.
pub open spec fn spill_codes(r: Register, pending: Seq<Parameter>) -> Seq<Code> {
    Seq::new(pending.len(), |k: int| save_code(r, pending[pending.len() - 1 - k]))
}

/// The values a register is known to hold after it is stored into each of
/// the pending locations, the most recently requested first.
pub open spec fn spill_values(values: Seq<RegisterValue>, pending: Seq<Parameter>) -> Seq<
    RegisterValue,
>
    decreases pending.len(),
{
    if pending.len() == 0 {
        values
    } else {
        spill_values(
            with_value(values, RegisterValue::Param(pending.last())),
            pending.drop_last(),
        )
    }
}

/// What the allocator knows: for each register (by ordinal), the values it
/// holds and the locations it is still to be stored into; and the number of
/// the next intermediate result.
#[verifier::ext_equal]
pub struct RegisterState {
    pub values: Seq<Seq<RegisterValue>>,
    pub pending: Seq<Seq<Parameter>>,
    pub next: nat,
}

impl RegisterState {
    pub open spec fn wf(self) -> bool {
        self.values.len() == 3 && self.pending.len() == 3
    }

    /// The state where nothing is known and nothing is pending.
    pub open spec fn empty(next: nat) -> RegisterState {
        RegisterState {
            values: seq![Seq::empty(), Seq::empty(), Seq::empty()],
            pending: seq![Seq::empty(), Seq::empty(), Seq::empty()],
            next,
        }
    }

    /// Storing a register into all its pending locations.
    pub open spec fn spill(self, r: Register) -> (Seq<Code>, RegisterState) {
        let i = ordinal_of(r);
        (
            spill_codes(r, self.pending[i]),
            RegisterState {
                values: self.values.update(i, spill_values(self.values[i], self.pending[i])),
                pending: self.pending.update(i, Seq::empty()),
                next: self.next,
            },
        )
    }

    /// Whether register `i` must be spilled before `clobbering` changes: it is
    /// that register, or one of its pending stores reads it.
    pub open spec fn must_spill(self, i: int, clobbering: Register) -> bool {
        ||| i == ordinal_of(clobbering)
        ||| exists|k: int|
            0 <= k < self.pending[i].len() && location_needs(#[trigger] self.pending[i][k], clobbering)
    }

    pub open spec fn spill_when(self, cond: bool, r: Register) -> (Seq<Code>, RegisterState) {
        if cond {
            self.spill(r)
        } else {
            (Seq::empty(), self)
        }
    }

    /// Spilling, in register order, every register that must be spilled
    /// before `clobbering` changes.
    pub open spec fn save_as_necessary(self, clobbering: Register) -> (Seq<Code>, RegisterState) {
        let s0 = self.spill_when(self.must_spill(0, clobbering), Register::Accum);
        let s1 = s0.1.spill_when(self.must_spill(1, clobbering), Register::XIndex);
        let s2 = s1.1.spill_when(self.must_spill(2, clobbering), Register::YIndex);
        (s0.0 + s1.0 + s2.0, s2.1)
    }

    /// The number after `n`, staying at the largest number once there.
    pub open spec fn after(n: nat) -> nat {
        if n < usize::MAX {
            n + 1
        } else {
            n
        }
    }

    /// An operation that leaves a fresh result in the accumulator, emitting
    /// the two given instructions after the necessary spills.
    pub open spec fn accum_op(self, first: Code, second: Code) -> (Seq<Code>, RegisterState) {
        let (c, s) = self.save_as_necessary(Register::Accum);
        (
            c + seq![first, second],
            RegisterState {
                values: s.values.update(0, seq![RegisterValue::Intermediate(s.next as usize)]),
                pending: s.pending,
                next: RegisterState::after(s.next),
            },
        )
    }

    /// Loading `p` into `r`, unless `r` is known to hold it already.
    pub open spec fn load(self, r: Register, p: Parameter) -> (Seq<Code>, RegisterState) {
        let i = ordinal_of(r);
        if holds(self.values[i], RegisterValue::Param(p)) {
            (Seq::empty(), self)
        } else {
            let (c, s) = self.save_as_necessary(r);
            (
                c.push(load_code(r, p)),
                RegisterState {
                    values: s.values.update(i, seq![RegisterValue::Param(p)]),
                    pending: s.pending,
                    next: s.next,
                },
            )
        }
    }

    /// Requesting that `r` be stored into `p` later; from then on `r` is
    /// known to hold the value of `p`.
    pub open spec fn save_later(self, r: Register, p: Parameter) -> RegisterState {
        let i = ordinal_of(r);
        RegisterState {
            values: self.values.update(i, with_value(self.values[i], RegisterValue::Param(p))),
            pending: self.pending.update(i, self.pending[i].push(p)),
            next: self.next,
        }
    }

    /// Spilling the accumulator, then X, then Y.
    pub open spec fn save_all_now(self) -> (Seq<Code>, RegisterState) {
        let s0 = self.spill(Register::Accum);
        let s1 = s0.1.spill(Register::XIndex);
        let s2 = s1.1.spill(Register::YIndex);
        (s0.0 + s1.0 + s2.0, s2.1)
    }

    /// Getting the data stack pointer into `into`, trying the registers from
    /// `i` on for one that holds it already.
    pub open spec fn load_dsp_from(self, into: Register, i: int) -> (Seq<Code>, RegisterState)
        decreases 3 - i,
    {
        if i >= 3 {
            self.load(into, dsp_param())
        } else if holds(self.values[i], RegisterValue::Param(dsp_param())) && register_at(i)
            == into {
            (Seq::empty(), self)
        } else if holds(self.values[i], RegisterValue::Param(dsp_param())) && transfer_code(
            register_at(i),
            into,
        ) is Some {
            let (c, s) = self.save_as_necessary(into);
            (c.push(transfer_code(register_at(i), into)->0), s)
        } else {
            self.load_dsp_from(into, i + 1)
        }
    }
}

/// One register's known values and pending stores.
struct RegisterSlot {
    equivalency: RegisterEquivalency,
    save_locations: Vec<SaveLocation>,
}

impl RegisterSlot {
    spec fn pending(&self) -> Seq<Parameter> {
        self.save_locations@.map_values(|l: SaveLocation| l.0)
    }

    fn new() -> (r: RegisterSlot)
        ensures
            r.equivalency@ == Seq::<RegisterValue>::empty(),
            r.pending() == Seq::<Parameter>::empty(),
    {
        let r = RegisterSlot { equivalency: RegisterEquivalency::new(), save_locations: Vec::new() };
        assert(r.pending() =~= Seq::<Parameter>::empty());
        r
    }

    fn spillover(&mut self, code: &mut Vec<Code>, register: Register)
        ensures
            final(code)@ == old(code)@ + spill_codes(register, old(self).pending()),
            final(self).equivalency@ == spill_values(old(self).equivalency@, old(self).pending()),
            final(self).pending() == Seq::<Parameter>::empty(),
    {
        let ghost code0 = code@;
        let ghost values0 = self.equivalency@;
        let ghost pending0 = self.pending();
        while self.save_locations.len() > 0
            invariant
                code@ + spill_codes(register, self.pending()) == code0 + spill_codes(
                    register,
                    pending0,
                ),
                spill_values(self.equivalency@, self.pending()) == spill_values(values0, pending0),
            decreases self.save_locations.len(),
        {
            let ghost before = self.pending();
            let location = self.save_locations.pop().unwrap();
            let ghost after = self.pending();
            assert(after =~= before.drop_last());
            assert(location.0 == before.last());
            let p = location.0;
            code.push(register.save_op(p.clone()));
            assert(spill_codes(register, before) =~= seq![save_code(register, p)] + spill_codes(
                register,
                after,
            ));
            assert(code@ + spill_codes(register, after) =~= code0 + spill_codes(register, pending0));
            self.equivalency.add_value(RegisterValue::Param(p));
        }
        assert(self.pending() =~= Seq::<Parameter>::empty());
        assert(spill_codes(register, self.pending()) =~= Seq::<Code>::empty());
        assert(code@ =~= code0 + spill_codes(register, pending0));
    }

    fn needs(&self, clobbering: Register) -> (r: bool)
        ensures
            r == exists|k: int|
                0 <= k < self.pending().len() && location_needs(
                    #[trigger] self.pending()[k],
                    clobbering,
                ),
    {
        let mut i: usize = 0;
        while i < self.save_locations.len()
            invariant
                i <= self.save_locations@.len(),
                forall|k: int| 0 <= k < i ==> !location_needs(self.pending()[k], clobbering),
            decreases self.save_locations.len() - i,
        {
            if self.save_locations[i].needs_register(clobbering) {
                assert(location_needs(self.pending()[i as int], clobbering));
                return true;
            }
            i += 1;
        }
        false
    }
}

/// Tracks what the registers hold and which stores are still to be made, so
/// that loads of values already in a register are skipped and stores are
/// made only when a register is about to change.
pub struct RegisterAllocator {
    accum: RegisterSlot,
    x_index: RegisterSlot,
    y_index: RegisterSlot,
    next_intermediate_differentiator: usize,
}

impl View for RegisterAllocator {
    type V = RegisterState;

    closed spec fn view(&self) -> RegisterState {
        RegisterState {
            values: seq![self.accum.equivalency@, self.x_index.equivalency@, self.y_index.equivalency@],
            pending: seq![self.accum.pending(), self.x_index.pending(), self.y_index.pending()],
            next: self.next_intermediate_differentiator as nat,
        }
    }
}

impl RegisterAllocator {
    pub proof fn lemma_wf(&self)
        ensures
            self@.wf(),
            self@.next <= usize::MAX,
    {
    }

    pub fn new() -> (r: RegisterAllocator)
        ensures
            r@ == RegisterState::empty(0),
    {
        let r = RegisterAllocator {
            accum: RegisterSlot::new(),
            x_index: RegisterSlot::new(),
            y_index: RegisterSlot::new(),
            next_intermediate_differentiator: 0,
        };
        assert(r@ =~= RegisterState::empty(0));
        r
    }

    fn next_intermediate(&mut self) -> (r: RegisterValue)
        ensures
            r == RegisterValue::Intermediate(old(self)@.next as usize),
            final(self)@ == (RegisterState { next: RegisterState::after(old(self)@.next), ..old(self)@ }),
    {
        let result = RegisterValue::Intermediate(self.next_intermediate_differentiator);
        if self.next_intermediate_differentiator < usize::MAX {
            self.next_intermediate_differentiator = self.next_intermediate_differentiator + 1;
        }
        result
    }

    fn spillover(&mut self, code: &mut Vec<Code>, register: Register)
        ensures
            final(code)@ == old(code)@ + old(self)@.spill(register).0,
            final(self)@ == old(self)@.spill(register).1,
    {
        match register {
            Register::Accum => self.accum.spillover(code, register),
            Register::XIndex => self.x_index.spillover(code, register),
            Register::YIndex => self.y_index.spillover(code, register),
        }
        assert(self@ =~= old(self)@.spill(register).1);
    }

    fn spill_when(&mut self, code: &mut Vec<Code>, cond: bool, register: Register)
        ensures
            final(code)@ == old(code)@ + old(self)@.spill_when(cond, register).0,
            final(self)@ == old(self)@.spill_when(cond, register).1,
    {
        if cond {
            self.spillover(code, register);
        } else {
            assert(code@ =~= old(code)@ + Seq::<Code>::empty());
        }
    }

    fn save_as_necessary(&mut self, code: &mut Vec<Code>, clobbering: Register)
        ensures
            final(code)@ == old(code)@ + old(self)@.save_as_necessary(clobbering).0,
            final(self)@ == old(self)@.save_as_necessary(clobbering).1,
    {
        let ghost st = self@;
        let s0 = clobbering == Register::Accum || self.accum.needs(clobbering);
        let s1 = clobbering == Register::XIndex || self.x_index.needs(clobbering);
        let s2 = clobbering == Register::YIndex || self.y_index.needs(clobbering);
        assert(s0 == st.must_spill(0, clobbering));
        assert(s1 == st.must_spill(1, clobbering));
        assert(s2 == st.must_spill(2, clobbering));
        let ghost code0 = code@;
        self.spill_when(code, s0, Register::Accum);
        self.spill_when(code, s1, Register::XIndex);
        self.spill_when(code, s2, Register::YIndex);
        assert(code@ =~= code0 + st.save_as_necessary(clobbering).0);
    }

    fn accum_op(&mut self, code: &mut Vec<Code>, first: Code, second: Code)
        ensures
            final(code)@ == old(code)@ + old(self)@.accum_op(first, second).0,
            final(self)@ == old(self)@.accum_op(first, second).1,
    {
        let ghost code0 = code@;
        self.save_as_necessary(code, Register::Accum);
        code.push(first);
        code.push(second);
        let next_intermediate = self.next_intermediate();
        self.accum.equivalency.clobber(next_intermediate);
        assert(code@ =~= code0 + old(self)@.accum_op(first, second).0);
        assert(self@ =~= old(self)@.accum_op(first, second).1);
    }

    pub fn add(&mut self, code: &mut Vec<Code>, param: Parameter)
        ensures
            final(code)@ == old(code)@ + old(self)@.accum_op(
                Code::Clc(Parameter::Implicit),
                Code::Adc(param),
            ).0,
            final(self)@ == old(self)@.accum_op(Code::Clc(Parameter::Implicit), Code::Adc(param)).1,
    {
        self.accum_op(code, Code::Clc(Parameter::Implicit), Code::Adc(param));
    }

    pub fn subtract(&mut self, code: &mut Vec<Code>, param: Parameter)
        ensures
            final(code)@ == old(code)@ + old(self)@.accum_op(
                Code::Sec(Parameter::Implicit),
                Code::Sbc(param),
            ).0,
            final(self)@ == old(self)@.accum_op(Code::Sec(Parameter::Implicit), Code::Sbc(param)).1,
    {
        self.accum_op(code, Code::Sec(Parameter::Implicit), Code::Sbc(param));
    }

    pub fn load_status_into_accum(&mut self, code: &mut Vec<Code>)
        ensures
            final(code)@ == old(code)@ + old(self)@.accum_op(
                Code::Php(Parameter::Implicit),
                Code::Pla(Parameter::Implicit),
            ).0,
            final(self)@ == old(self)@.accum_op(
                Code::Php(Parameter::Implicit),
                Code::Pla(Parameter::Implicit),
            ).1,
    {
        self.accum_op(code, Code::Php(Parameter::Implicit), Code::Pla(Parameter::Implicit));
    }

    fn is_equivalent(&self, register: Register, value: &RegisterValue) -> (r: bool)
        ensures
            r == holds(self@.values[ordinal_of(register)], *value),
    {
        match register {
            Register::Accum => self.accum.equivalency.is_equivalent(value),
            Register::XIndex => self.x_index.equivalency.is_equivalent(value),
            Register::YIndex => self.y_index.equivalency.is_equivalent(value),
        }
    }

    pub fn load(&mut self, code: &mut Vec<Code>, register: Register, param: Parameter)
        ensures
            final(code)@ == old(code)@ + old(self)@.load(register, param).0,
            final(self)@ == old(self)@.load(register, param).1,
    {
        let value = RegisterValue::Param(param.clone());
        if !self.is_equivalent(register, &value) {
            let ghost code0 = code@;
            self.save_as_necessary(code, register);
            code.push(register.load_op(param));
            match register {
                Register::Accum => self.accum.equivalency.clobber(value),
                Register::XIndex => self.x_index.equivalency.clobber(value),
                Register::YIndex => self.y_index.equivalency.clobber(value),
            }
            assert(code@ =~= code0 + old(self)@.load(register, param).0);
            assert(self@ =~= old(self)@.load(register, param).1);
        } else {
            assert(code@ =~= old(code)@ + Seq::<Code>::empty());
        }
    }

    pub fn save_later(&mut self, register: Register, location: Parameter)
        ensures
            final(self)@ == old(self)@.save_later(register, location),
    {
        let value = RegisterValue::Param(location.clone());
        match register {
            Register::Accum => {
                self.accum.save_locations.push(SaveLocation(location));
                self.accum.equivalency.add_value(value);
                assert(self.accum.pending() =~= old(self).accum.pending().push(location));
            },
            Register::XIndex => {
                self.x_index.save_locations.push(SaveLocation(location));
                self.x_index.equivalency.add_value(value);
                assert(self.x_index.pending() =~= old(self).x_index.pending().push(location));
            },
            Register::YIndex => {
                self.y_index.save_locations.push(SaveLocation(location));
                self.y_index.equivalency.add_value(value);
                assert(self.y_index.pending() =~= old(self).y_index.pending().push(location));
            },
        }
        assert(self@ =~= old(self)@.save_later(register, location));
    }

    pub fn save_all_now(&mut self, code: &mut Vec<Code>)
        ensures
            final(code)@ == old(code)@ + old(self)@.save_all_now().0,
            final(self)@ == old(self)@.save_all_now().1,
    {
        let ghost code0 = code@;
        self.spillover(code, Register::Accum);
        self.spillover(code, Register::XIndex);
        self.spillover(code, Register::YIndex);
        assert(code@ =~= code0 + old(self)@.save_all_now().0);
    }

    pub fn save_all_and_reset(&mut self, code: &mut Vec<Code>)
        ensures
            final(code)@ == old(code)@ + old(self)@.save_all_now().0,
            final(self)@ == RegisterState::empty(old(self)@.next),
    {
        self.save_all_now(code);
        self.accum.equivalency.reset();
        self.x_index.equivalency.reset();
        self.y_index.equivalency.reset();
        self.accum.save_locations.clear();
        self.x_index.save_locations.clear();
        self.y_index.save_locations.clear();
        assert(self.accum.pending() =~= Seq::<Parameter>::empty());
        assert(self.x_index.pending() =~= Seq::<Parameter>::empty());
        assert(self.y_index.pending() =~= Seq::<Parameter>::empty());
        assert(self@ =~= RegisterState::empty(old(self)@.next));
    }

    pub fn load_dsp(&mut self, code: &mut Vec<Code>, into: Register)
        ensures
            final(code)@ == old(code)@ + old(self)@.load_dsp_from(into, 0).0,
            final(self)@ == old(self)@.load_dsp_from(into, 0).1,
    {
        let dsp = RegisterValue::Param(dsp_param_exec());
        let mut i: usize = 0;
        while i < 3
            invariant
                i <= 3,
                *self == *old(self),
                *code == *old(code),
                dsp == RegisterValue::Param(dsp_param()),
                self@.load_dsp_from(into, 0) == self@.load_dsp_from(into, i as int),
            decreases 3 - i,
        {
            let from = Register::from_ordinal(i);
            assert(ordinal_of(from) == i);
            if self.is_equivalent(from, &dsp) {
                if from == into {
                    assert(code@ =~= old(code)@ + Seq::<Code>::empty());
                    return;
                } else if let Some(transfer) = from.to_other(into) {
                    let ghost code0 = code@;
                    self.save_as_necessary(code, into);
                    code.push(transfer);
                    assert(code@ =~= code0 + old(self)@.load_dsp_from(into, 0).0);
                    return;
                }
            }
            i += 1;
        }
        self.load(code, into, dsp_param_exec());
    }

    pub fn save_dsp_later(&mut self, from_register: Register)
        ensures
            final(self)@ == old(self)@.save_later(from_register, dsp_param()),
    {
        self.save_later(from_register, dsp_param_exec());
    }
}

proof fn lemma_same_parameter_reflexive(p: Parameter)
    ensures
        same_parameter(p, p),
{
}

proof fn lemma_with_value_holds(values: Seq<RegisterValue>, v: RegisterValue)
    ensures
        holds(with_value(values, v), v),
{
    if let RegisterValue::Param(p) = v {
        lemma_same_parameter_reflexive(p);
    }
    if !holds(values, v) {
        assert(same_value(values.push(v)[values.len() as int], v));
    }
}

/// The ordinal of a register and the register at an ordinal undo each other.
pub proof fn lemma_ordinal_round_trip(r: Register, i: int)
    requires
        0 <= i < 3,
    ensures
        register_at(ordinal_of(r)) == r,
        ordinal_of(register_at(i)) == i,
{
}

/// Loading the same operand into the same register twice in a row emits
/// code only the first time, and the second load changes nothing.
pub proof fn lemma_load_twice(s: RegisterState, r: Register, p: Parameter)
    requires
        s.wf(),
    ensures
        s.load(r, p).1.load(r, p) == (Seq::<Code>::empty(), s.load(r, p).1),
{
    let i = ordinal_of(r);
    let v = RegisterValue::Param(p);
    lemma_same_parameter_reflexive(p);
    if !holds(s.values[i], v) {
        let s1 = s.load(r, p).1;
        assert(s1.values[i] == seq![v]);
        assert(same_value(s1.values[i][0], v));
    }
}

/// After a register is to be stored into a location, loading that location
/// into the same register emits no code: the register already holds it.
pub proof fn lemma_load_after_save_later(s: RegisterState, r: Register, p: Parameter)
    requires
        s.wf(),
    ensures
        s.save_later(r, p).load(r, p) == (Seq::<Code>::empty(), s.save_later(r, p)),
{
    lemma_with_value_holds(s.values[ordinal_of(r)], RegisterValue::Param(p));
}

/// Saving everything leaves no store pending, emits one store per pending
/// location, and after a reset nothing is known about any register.
pub proof fn lemma_save_all_now_flushes(s: RegisterState)
    requires
        s.wf(),
    ensures
        s.save_all_now().1.wf(),
        forall|i: int| 0 <= i < 3 ==> #[trigger] s.save_all_now().1.pending[i] == Seq::<Parameter>::empty(),
        s.save_all_now().0.len() == s.pending[0].len() + s.pending[1].len() + s.pending[2].len(),
{
}

/// A register that must change is always spilled first: after making room
/// for it, it has no pending store left.
pub proof fn lemma_save_as_necessary_spills_clobbered(s: RegisterState, clobbering: Register)
    requires
        s.wf(),
    ensures
        s.save_as_necessary(clobbering).1.wf(),
        s.save_as_necessary(clobbering).1.pending[ordinal_of(clobbering)] == Seq::<Parameter>::empty(),
        forall|i: int, k: int|
            0 <= i < 3 && 0 <= k < s.save_as_necessary(clobbering).1.pending[i].len() ==> !location_needs(
                #[trigger] s.save_as_necessary(clobbering).1.pending[i][k],
                clobbering,
            ),
{
}
} // verus!
