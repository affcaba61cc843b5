//! Cores and their registers, as every architecture sees them.

use crate::error::Error;
use vstd::prelude::*;

verus! {

/// A register that is mapped into the memory of the target.
pub trait MemoryMappedRegister: Sized {
    /// The address of the register in the memory of the target.
    fn address() -> u64;

    /// The name of the register.
    fn name() -> &'static str;

    /// The view of a word that was read from the register.
    fn from_raw(raw: u32) -> Self;

    /// The word that is written to the register.
    fn raw(&self) -> u32;
}

/// What is known of a core that has just halted.
#[derive(Debug, Clone)]
pub struct CoreInformation {
    /// The program counter
    pub pc: u64,
}

/// The kind of data that a register holds.
#[derive(Debug, Clone, Copy, PartialEq, Eq)]
pub enum RegisterDataType {
    /// An unsigned integer
    UnsignedInteger,
    /// A floating point number
    FloatingPoint,
}

/// What a register serves for.
#[derive(Debug, Clone, Copy, PartialEq, Eq)]
pub enum RegisterKind {
    General,
    PC,
    Fp,
}

/// The place of a register of a core. It is no address in memory: each
/// architecture numbers its registers in its own way.
#[derive(Debug, Copy, Clone, PartialEq, Eq, Hash)]
pub struct RegisterId(pub u16);

impl From<RegisterId> for u32 {
    fn from(value: RegisterId) -> (number: u32) {
        value.0 as u32
    }
}

impl vstd::std_specs::convert::FromSpecImpl<RegisterId> for u32 {
    open spec fn obeys_from_spec() -> bool {
        true
    }

    open spec fn from_spec(value: RegisterId) -> u32 {
        value.0 as u32
    }
}

impl From<u16> for RegisterId {
    fn from(value: u16) -> (id: RegisterId) {
        RegisterId(value)
    }
}

impl vstd::std_specs::convert::FromSpecImpl<u16> for RegisterId {
    open spec fn obeys_from_spec() -> bool {
        true
    }

    open spec fn from_spec(value: u16) -> RegisterId {
        RegisterId(value)
    }
}

/// A register of a core, with what is known of it.
#[derive(Debug, Clone, PartialEq)]
pub struct RegisterDescription {
    pub name: &'static str,
    pub _kind: RegisterKind,
    pub id: RegisterId,
    pub _type: RegisterDataType,
    pub size_in_bits: usize,
}

impl RegisterDescription {
    /// The name under which the register is shown.
    pub fn name(&self) -> (name: &'static str)
        ensures
            name == self.name,
    {
        self.name
    }

    /// The kind of data that the register holds.
    pub fn data_type(&self) -> (data_type: RegisterDataType)
        ensures
            data_type == self._type,
    {
        self._type
    }

    /// The size of the register in bits.
    pub fn size_in_bits(&self) -> (bits: usize)
        ensures
            bits == self.size_in_bits,
    {
        self.size_in_bits
    }

    /// The size of the register in bytes, rounded up.
    pub fn size_in_bytes(&self) -> (bytes: usize)
        ensures
            bytes == (self.size_in_bits + 7) / 8,
    {
        if self.size_in_bits % 8 == 0 {
            self.size_in_bits / 8
        } else {
            self.size_in_bits / 8 + 1
        }
    }

    /// The width that the value of the register takes when it is printed in
    /// hexadecimal digits behind `0x`.
    pub fn format_hex_width(&self) -> (width: usize)
        ensures
            width == ((self.size_in_bits + 7) / 8) * 2 + 2,
    {
        (self.size_in_bytes() * 2) + 2
    }
}

impl From<RegisterDescription> for RegisterId {
    fn from(description: RegisterDescription) -> (id: RegisterId) {
        description.id
    }
}

impl vstd::std_specs::convert::FromSpecImpl<RegisterDescription> for RegisterId {
    open spec fn obeys_from_spec() -> bool {
        true
    }

    open spec fn from_spec(description: RegisterDescription) -> RegisterId {
        description.id
    }
}

/// The value of a register of a core.
#[derive(Debug, Clone, Copy, PartialEq)]
pub enum RegisterValue {
    /// A 32-bit unsigned integer
    U32(u32),
    /// A 64-bit unsigned integer
    U64(u64),
}

impl From<u32> for RegisterValue {
    fn from(val: u32) -> (value: RegisterValue) {
        RegisterValue::U32(val)
    }
}

impl vstd::std_specs::convert::FromSpecImpl<u32> for RegisterValue {
    open spec fn obeys_from_spec() -> bool {
        true
    }

    open spec fn from_spec(val: u32) -> RegisterValue {
        RegisterValue::U32(val)
    }
}

impl From<u64> for RegisterValue {
    fn from(val: u64) -> (value: RegisterValue) {
        RegisterValue::U64(val)
    }
}

impl vstd::std_specs::convert::FromSpecImpl<u64> for RegisterValue {
    open spec fn obeys_from_spec() -> bool {
        true
    }

    open spec fn from_spec(val: u64) -> RegisterValue {
        RegisterValue::U64(val)
    }
}

impl RegisterValue {
    /// The value as a mathematical integer.
    pub open spec fn as_int(self) -> int {
        match self {
            RegisterValue::U32(v) => v as int,
            RegisterValue::U64(v) => v as int,
        }
    }

    /// The value as a 32-bit integer, if it is small enough.
    pub fn try_into_u32(self) -> (r: Result<u32, Error>)
        ensures
            self.as_int() <= 0xffff_ffff ==> r == Ok::<u32, Error>(self.as_int() as u32),
            self.as_int() > 0xffff_ffff ==> r == Err::<u32, Error>(
                Error::ValueTooLarge(self.as_int() as u64),
            ),
    {
        match self {
            RegisterValue::U32(v) => Ok(v),
            RegisterValue::U64(v) => if v <= 0xffff_ffff {
                Ok(v as u32)
            } else {
                Err(Error::ValueTooLarge(v))
            },
        }
    }

    /// The value as a 64-bit integer.
    pub fn try_into_u64(self) -> (r: Result<u64, Error>)
        ensures
            r == Ok::<u64, Error>(self.as_int() as u64),
    {
        match self {
            RegisterValue::U32(v) => Ok(v as u64),
            RegisterValue::U64(v) => Ok(v),
        }
    }
}

/// The registers of a core, by what they serve for.
#[derive(Debug, PartialEq)]
pub struct RegisterFile {
    pub platform_registers: &'static [RegisterDescription],
    /// The program counter
    pub program_counter: &'static RegisterDescription,
    pub stack_pointer: &'static RegisterDescription,
    pub return_address: &'static RegisterDescription,
    pub frame_pointer: &'static RegisterDescription,
    pub argument_registers: &'static [RegisterDescription],
    pub result_registers: &'static [RegisterDescription],
    pub msp: Option<&'static RegisterDescription>,
    pub psp: Option<&'static RegisterDescription>,
    pub extra: Option<&'static RegisterDescription>,
    pub psr: Option<&'static RegisterDescription>,
    pub fp_status: Option<&'static RegisterDescription>,
    pub fp_registers: Option<&'static [RegisterDescription]>,
}

/// The register at an index of a list, if the list is that long.
pub open spec fn register_at(
    registers: Seq<RegisterDescription>,
    index: usize,
) -> Option<&'static RegisterDescription> {
    if index < registers.len() {
        Some(&registers[index as int])
    } else {
        None
    }
}

impl RegisterFile {
    /// The registers of the platform, in order.
    pub fn registers(&self) -> (registers: &'static [RegisterDescription])
        ensures
            registers == self.platform_registers,
    {
        self.platform_registers
    }

    /// The frame pointer.
    pub fn frame_pointer(&self) -> (register: &'static RegisterDescription)
        ensures
            register == self.frame_pointer,
    {
        self.frame_pointer
    }

    /// The program counter.
    pub fn program_counter(&self) -> (register: &'static RegisterDescription)
        ensures
            register == self.program_counter,
    {
        self.program_counter
    }

    /// The stack pointer.
    pub fn stack_pointer(&self) -> (register: &'static RegisterDescription)
        ensures
            register == self.stack_pointer,
    {
        self.stack_pointer
    }

    /// The link register.
    pub fn return_address(&self) -> (register: &'static RegisterDescription)
        ensures
            register == self.return_address,
    {
        self.return_address
    }

    /// The argument register of an index that the core has.
    pub fn argument_register(&self, index: usize) -> (register: &'static RegisterDescription)
        requires
            index < self.argument_registers@.len(),
        ensures
            *register == self.argument_registers@[index as int],
    {
        &self.argument_registers[index]
    }

    /// The argument register of an index, if the core has it.
    pub fn get_argument_register(&self, index: usize) -> (register: Option<
        &'static RegisterDescription,
    >)
        ensures
            register == register_at(self.argument_registers@, index),
    {
        if index < self.argument_registers.len() {
            Some(&self.argument_registers[index])
        } else {
            None
        }
    }

    /// The result register of an index that the core has.
    pub fn result_register(&self, index: usize) -> (register: &'static RegisterDescription)
        requires
            index < self.result_registers@.len(),
        ensures
            *register == self.result_registers@[index as int],
    {
        &self.result_registers[index]
    }

    /// The result register of an index, if the core has it.
    pub fn get_result_register(&self, index: usize) -> (register: Option<
        &'static RegisterDescription,
    >)
        ensures
            register == register_at(self.result_registers@, index),
    {
        if index < self.result_registers.len() {
            Some(&self.result_registers[index])
        } else {
            None
        }
    }

    /// The platform register of an index that the core has.
    pub fn platform_register(&self, index: usize) -> (register: &'static RegisterDescription)
        requires
            index < self.platform_registers@.len(),
        ensures
            *register == self.platform_registers@[index as int],
    {
        &self.platform_registers[index]
    }

    /// The platform register of an index, if the core has it.
    pub fn get_platform_register(&self, index: usize) -> (register: Option<
        &'static RegisterDescription,
    >)
        ensures
            register == register_at(self.platform_registers@, index),
    {
        if index < self.platform_registers.len() {
            Some(&self.platform_registers[index])
        } else {
            None
        }
    }

    /// The main stack pointer.
    pub fn msp(&self) -> (register: Option<&'static RegisterDescription>)
        ensures
            register == self.msp,
    {
        self.msp
    }

    /// The process stack pointer.
    pub fn psp(&self) -> (register: Option<&'static RegisterDescription>)
        ensures
            register == self.psp,
    {
        self.psp
    }

    /// The processor status register.
    pub fn psr(&self) -> (register: Option<&'static RegisterDescription>)
        ensures
            register == self.psr,
    {
        self.psr
    }

    /// The status register of the floating point unit.
    pub fn fpscr(&self) -> (register: Option<&'static RegisterDescription>)
        ensures
            register == self.fp_status,
    {
        self.fp_status
    }

    /// The registers of the floating point unit, in order, if there is one.
    pub fn fpu_registers(&self) -> (registers: Option<&'static [RegisterDescription]>)
        ensures
            registers == self.fp_registers,
    {
        self.fp_registers
    }

    /// The register of the floating point unit of an index that the unit
    /// has, if there is a unit.
    pub fn fpu_register(&self, index: usize) -> (register: Option<&'static RegisterDescription>)
        requires
            self.fp_registers matches Some(registers) ==> index < registers@.len(),
        ensures
            match self.fp_registers {
                Some(registers) => register == Some(&registers@[index as int]),
                None => register is None,
            },
    {
        match self.fp_registers {
            Some(registers) => Some(&registers[index]),
            None => None,
        }
    }

    /// The register of the floating point unit of an index, if there is a
    /// unit and it has the register.
    pub fn get_fpu_register(&self, index: usize) -> (register: Option<&'static RegisterDescription>)
        ensures
            match self.fp_registers {
                Some(registers) => register == register_at(registers@, index),
                None => register is None,
            },
    {
        match self.fp_registers {
            Some(registers) => if index < registers.len() {
                Some(&registers[index])
            } else {
                None
            },
            None => None,
        }
    }
}

/// The kind of a core.
#[derive(Debug, Clone, Copy, PartialEq, Eq, Hash)]
pub enum CoreType {
    Armv6m,
    Armv7a,
    Armv7m,
    Armv7em,
    Armv8a,
    Armv8m,
    Riscv,
}

/// What is kept of a Cortex-M core between accesses.
#[derive(Debug)]
pub struct CortexMState {
    pub initialized: bool,
    pub hw_breakpoints_enabled: bool,
}

impl CortexMState {
    /// The state of a core that nothing was done with yet.
    pub open spec fn fresh() -> Self {
        CortexMState { initialized: false, hw_breakpoints_enabled: false }
    }

    /// The state of a core that nothing was done with yet.
    #[verifier::when_used_as_spec(fresh)]
    pub fn new() -> (state: Self)
        ensures
            state == Self::fresh(),
    {
        CortexMState { initialized: false, hw_breakpoints_enabled: false }
    }
}

/// What is kept of a Cortex-A core between accesses.
#[derive(Debug)]
pub struct CortexAState {
    pub initialized: bool,
}

impl CortexAState {
    /// The state of a core that nothing was done with yet.
    pub open spec fn fresh() -> Self {
        CortexAState { initialized: false }
    }

    /// The state of a core that nothing was done with yet.
    #[verifier::when_used_as_spec(fresh)]
    pub fn new() -> (state: Self)
        ensures
            state == Self::fresh(),
    {
        CortexAState { initialized: false }
    }
}

/// What is kept of a core between accesses, by its architecture.
#[derive(Debug)]
pub enum SpecificCoreState {
    /// The state of an ARMv6-M core
    Armv6m(CortexMState),
    /// The state of an ARMv7-A core
    Armv7a(CortexAState),
    /// The state of an ARMv7-M core
    Armv7m(CortexMState),
    /// The state of an ARMv7-EM core
    Armv7em(CortexMState),
    /// The state of an ARMv8-A core
    Armv8a(CortexAState),
    /// The state of an ARMv8-M core
    Armv8m(CortexMState),
    /// The state of a RISC-V core
    Riscv,
}

impl SpecificCoreState {
    /// The kind of core that the state is for.
    pub open spec fn spec_core_type(&self) -> CoreType {
        match self {
            SpecificCoreState::Armv6m(_) => CoreType::Armv6m,
            SpecificCoreState::Armv7a(_) => CoreType::Armv7a,
            SpecificCoreState::Armv7m(_) => CoreType::Armv7m,
            SpecificCoreState::Armv7em(_) => CoreType::Armv7em,
            SpecificCoreState::Armv8a(_) => CoreType::Armv8a,
            SpecificCoreState::Armv8m(_) => CoreType::Armv8m,
            SpecificCoreState::Riscv => CoreType::Riscv,
        }
    }

    /// The fresh state for a core of a kind. An ARMv7-EM core gets the state
    /// of an ARMv7-M core.
    pub open spec fn spec_from_core_type(typ: CoreType) -> Self {
        match typ {
            CoreType::Armv6m => SpecificCoreState::Armv6m(CortexMState::fresh()),
            CoreType::Armv7a => SpecificCoreState::Armv7a(CortexAState::fresh()),
            CoreType::Armv7m => SpecificCoreState::Armv7m(CortexMState::fresh()),
            CoreType::Armv7em => SpecificCoreState::Armv7m(CortexMState::fresh()),
            CoreType::Armv8a => SpecificCoreState::Armv8a(CortexAState::fresh()),
            CoreType::Armv8m => SpecificCoreState::Armv8m(CortexMState::fresh()),
            CoreType::Riscv => SpecificCoreState::Riscv,
        }
    }

    /// The fresh state for a core of a kind.
    #[verifier::when_used_as_spec(spec_from_core_type)]
    pub fn from_core_type(typ: CoreType) -> (state: Self)
        ensures
            state == Self::spec_from_core_type(typ),
    {
        match typ {
            CoreType::Armv6m => SpecificCoreState::Armv6m(CortexMState::new()),
            CoreType::Armv7a => SpecificCoreState::Armv7a(CortexAState::new()),
            CoreType::Armv7m => SpecificCoreState::Armv7m(CortexMState::new()),
            CoreType::Armv7em => SpecificCoreState::Armv7m(CortexMState::new()),
            CoreType::Armv8a => SpecificCoreState::Armv8a(CortexAState::new()),
            CoreType::Armv8m => SpecificCoreState::Armv8m(CortexMState::new()),
            CoreType::Riscv => SpecificCoreState::Riscv,
        }
    }

    /// The kind of core that the state is for.
    #[verifier::when_used_as_spec(spec_core_type)]
    pub fn core_type(&self) -> (typ: CoreType)
        ensures
            typ == self.spec_core_type(),
    {
        match self {
            SpecificCoreState::Armv6m(_) => CoreType::Armv6m,
            SpecificCoreState::Armv7a(_) => CoreType::Armv7a,
            SpecificCoreState::Armv7m(_) => CoreType::Armv7m,
            SpecificCoreState::Armv7em(_) => CoreType::Armv7em,
            SpecificCoreState::Armv8a(_) => CoreType::Armv8a,
            SpecificCoreState::Armv8m(_) => CoreType::Armv8m,
            SpecificCoreState::Riscv => CoreType::Riscv,
        }
    }
}

/// The number of a breakpoint.
#[derive(Debug, Copy, Clone, PartialEq)]
pub struct BreakpointId(pub usize);

impl BreakpointId {
    /// The breakpoint of the given number.
    pub fn new(id: usize) -> (breakpoint: Self)
        ensures
            breakpoint.0 == id,
    {
        BreakpointId(id)
    }
}

/// Why a core has halted.
#[derive(Debug, PartialEq, Copy, Clone)]
pub enum HaltReason {
    /// For several reasons at once, as when a single step ends on a breakpoint
    Multiple,
    /// At a breakpoint
    Breakpoint,
    /// On an exception
    Exception,
    /// At a watchpoint
    Watchpoint,
    /// After a single step
    Step,
    /// On the request of the debugger
    Request,
    /// On a request from outside
    External,
    /// For a reason that is not known, as when the core was halted before
    /// the debugger came
    Unknown,
}

/// What a core is doing.
#[derive(Debug, PartialEq, Copy, Clone)]
pub enum CoreStatus {
    /// The core is running.
    Running,
    /// The core is halted, for the given reason.
    Halted(HaltReason),
    /// The core is locked up.
    LockedUp,
    /// The core is sleeping.
    Sleeping,
    /// Nothing is known yet of what the core is doing.
    Unknown,
}

impl CoreStatus {
    /// Whether the core is halted.
    pub fn is_halted(&self) -> (halted: bool)
        ensures
            halted == (*self is Halted),
    {
        match self {
            CoreStatus::Halted(_) => true,
            _ => false,
        }
    }
}

} // verus!
