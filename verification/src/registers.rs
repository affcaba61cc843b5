//! The registers of a debug module: their addresses on the DMI bus and typed
//! views of their fields.

use crate::bits::{get_field, get_flag, set_field, set_flag};
use vstd::prelude::*;

verus! {

pub const DATA0: u8 = 0x04;

pub const DATA1: u8 = 0x05;

pub const DATA2: u8 = 0x06;

pub const DATA3: u8 = 0x07;

pub const DMCONTROL: u8 = 0x10;

pub const DMSTATUS: u8 = 0x11;

pub const HARTINFO: u8 = 0x12;

pub const ABSTRACTCS: u8 = 0x16;

pub const COMMAND: u8 = 0x17;

pub const ABSTRACTAUTO: u8 = 0x18;

pub const CONFSTRPTR0: u8 = 0x19;

pub const CONFSTRPTR1: u8 = 0x1a;

pub const CONFSTRPTR2: u8 = 0x1b;

pub const CONFSTRPTR3: u8 = 0x1c;

pub const PROGBUF0: u8 = 0x20;

/// The number of program buffer registers that the register map has room for.
pub const PROGBUF_REGISTERS: usize = 16;

pub const SBCS: u8 = 0x38;

pub const SBADDRESS0: u8 = 0x39;

pub const SBADDRESS1: u8 = 0x3a;

pub const SBADDRESS2: u8 = 0x3b;

pub const SBADDRESS3: u8 = 0x37;

pub const SBDATA0: u8 = 0x3c;

pub const SBDATA1: u8 = 0x3d;

pub const SBDATA2: u8 = 0x3e;

pub const SBDATA3: u8 = 0x3f;

/// A register of the debug module that is read and written as one 32-bit word.
pub trait DebugRegister: Sized {
    spec fn spec_address() -> u8;

    /// The address of the register on the DMI bus.
    fn address() -> (a: u8)
        ensures
            a == Self::spec_address(),
    ;

    /// The name of the register in the debug specification.
    fn name() -> (n: &'static str)
    ;

    spec fn spec_from_raw(raw: u32) -> Self;

    /// The view of a word that was read from the register.
    fn from_raw(raw: u32) -> (r: Self)
        ensures
            r == Self::spec_from_raw(raw),
    ;

    spec fn spec_raw(&self) -> u32;

    /// The word that is written to the register.
    fn raw(&self) -> (r: u32)
        ensures
            r == self.spec_raw(),
    ;
}

/// A value of up to 128 bits that the debug module holds in four registers.
/// Slot 0 holds the lowest 32 bits, and it is the slot whose access has side
/// effects.
#[derive(Debug, Clone, Copy, PartialEq, Eq)]
pub enum LargeRegister {
    /// `sbdata0` to `sbdata3`
    Sbdata,
    /// The first argument of abstract commands: `data0` to `data3`
    Arg0,
}

impl LargeRegister {
    pub open spec fn spec_slot_address(&self, slot: usize) -> u8 {
        match self {
            LargeRegister::Sbdata => if slot == 0 {
                SBDATA0
            } else if slot == 1 {
                SBDATA1
            } else if slot == 2 {
                SBDATA2
            } else {
                SBDATA3
            },
            LargeRegister::Arg0 => if slot == 0 {
                DATA0
            } else if slot == 1 {
                DATA1
            } else if slot == 2 {
                DATA2
            } else {
                DATA3
            },
        }
    }

    /// The address of the register that holds the bits `32 * slot` and up.
    #[verifier::when_used_as_spec(spec_slot_address)]
    pub fn slot_address(&self, slot: usize) -> (a: u8)
        ensures
            a == self.spec_slot_address(slot),
    {
        match self {
            LargeRegister::Sbdata => if slot == 0 {
                SBDATA0
            } else if slot == 1 {
                SBDATA1
            } else if slot == 2 {
                SBDATA2
            } else {
                SBDATA3
            },
            LargeRegister::Arg0 => if slot == 0 {
                DATA0
            } else if slot == 1 {
                DATA1
            } else if slot == 2 {
                DATA2
            } else {
                DATA3
            },
        }
    }
}

/// The address of a word of the program buffer, if the register map has it.
pub open spec fn spec_progbuf_address(index: usize) -> Option<u8> {
    if index < PROGBUF_REGISTERS {
        Some((PROGBUF0 + index) as u8)
    } else {
        None
    }
}

/// The address of a word of the program buffer, if the register map has it.
#[verifier::when_used_as_spec(spec_progbuf_address)]
pub fn progbuf_address(index: usize) -> (a: Option<u8>)
    ensures
        a == spec_progbuf_address(index),
{
    if index < PROGBUF_REGISTERS {
        Some(PROGBUF0 + (index as u8))
    } else {
        None
    }
}

impl Dmcontrol {
    /// The index of the selected hart: 20 bits, of which the register holds
    /// the low half above the high half.
    pub open spec fn spec_hartsel(&self) -> u32 {
        (self.spec_hartselhi() << 10u32) | self.spec_hartsello()
    }

    /// The index of the selected hart.
    #[verifier::when_used_as_spec(spec_hartsel)]
    pub fn hartsel(&self) -> (r: u32)
        ensures
            r == self.spec_hartsel(),
            r >> 20u32 == 0,
    {
        let hi: u32 = self.hartselhi();
        let lo: u32 = self.hartsello();
        let raw: u32 = self.0;
        assert(((hi << 10u32) | lo) >> 20u32 == 0) by (bit_vector)
            requires
                hi == (raw >> 6u32) & (0xffff_ffffu32 >> 22u32),
                lo == (raw >> 16u32) & (0xffff_ffffu32 >> 22u32),
        ;
        (hi << 10u32) | lo
    }

    /// The word `raw` with the hart of index `value` selected.
    pub open spec fn with_hartsel(raw: u32, value: u32) -> u32 {
        crate::bits::with_field(
            crate::bits::with_field(raw, 25, 16, value & 0x3ffu32),
            15,
            6,
            (value >> 10u32) & 0x3ffu32,
        )
    }

    /// Selects the hart of index `value`, of which the lowest 20 bits count.
    pub fn set_hartsel(&mut self, value: u32)
        ensures
            final(self).0 == Self::with_hartsel(old(self).0, value),
    {
        self.set_hartsello(value & 0x3ffu32);
        self.set_hartselhi((value >> 10u32) & 0x3ffu32);
    }
}

impl AccessRegisterCommand {
    /// The width of the register access.
    pub fn set_aarsize(&mut self, width: crate::error::RiscvBusAccess)
        ensures
            final(self).0 == crate::bits::with_field(old(self).0, 22, 20, width.spec_code() as u32),
    {
        self.set_aarsize_code(width.code() as u32);
    }
}

/// Debug module status: what the module is and what its selected harts are doing.
#[derive(Debug, Clone, Copy, PartialEq, Eq)]
pub struct Dmstatus(pub u32);

impl Dmstatus {
    pub open spec fn spec_impebreak(&self) -> bool {
        crate::bits::flag(self.0, 22)
    }

    /// There is an implicit `ebreak` after the last word of the program buffer.
    #[verifier::when_used_as_spec(spec_impebreak)]
    pub fn impebreak(&self) -> (r: bool)
        ensures
            r == self.spec_impebreak(),
    {
        get_flag(self.0, 22)
    }

    pub open spec fn spec_allhavereset(&self) -> bool {
        crate::bits::flag(self.0, 19)
    }

    /// All selected harts were reset and the reset was not acknowledged.
    #[verifier::when_used_as_spec(spec_allhavereset)]
    pub fn allhavereset(&self) -> (r: bool)
        ensures
            r == self.spec_allhavereset(),
    {
        get_flag(self.0, 19)
    }

    pub open spec fn spec_anyhavereset(&self) -> bool {
        crate::bits::flag(self.0, 18)
    }

    /// Some selected hart was reset and the reset was not acknowledged.
    #[verifier::when_used_as_spec(spec_anyhavereset)]
    pub fn anyhavereset(&self) -> (r: bool)
        ensures
            r == self.spec_anyhavereset(),
    {
        get_flag(self.0, 18)
    }

    pub open spec fn spec_allresumeack(&self) -> bool {
        crate::bits::flag(self.0, 17)
    }

    /// All selected harts acknowledged the last resume request.
    #[verifier::when_used_as_spec(spec_allresumeack)]
    pub fn allresumeack(&self) -> (r: bool)
        ensures
            r == self.spec_allresumeack(),
    {
        get_flag(self.0, 17)
    }

    pub open spec fn spec_anyresumeack(&self) -> bool {
        crate::bits::flag(self.0, 16)
    }

    /// Some selected hart acknowledged the last resume request.
    #[verifier::when_used_as_spec(spec_anyresumeack)]
    pub fn anyresumeack(&self) -> (r: bool)
        ensures
            r == self.spec_anyresumeack(),
    {
        get_flag(self.0, 16)
    }

    pub open spec fn spec_allnonexistent(&self) -> bool {
        crate::bits::flag(self.0, 15)
    }

    /// None of the selected harts exists.
    #[verifier::when_used_as_spec(spec_allnonexistent)]
    pub fn allnonexistent(&self) -> (r: bool)
        ensures
            r == self.spec_allnonexistent(),
    {
        get_flag(self.0, 15)
    }

    pub open spec fn spec_anynonexistent(&self) -> bool {
        crate::bits::flag(self.0, 14)
    }

    /// Some selected hart does not exist.
    #[verifier::when_used_as_spec(spec_anynonexistent)]
    pub fn anynonexistent(&self) -> (r: bool)
        ensures
            r == self.spec_anynonexistent(),
    {
        get_flag(self.0, 14)
    }

    pub open spec fn spec_allunavail(&self) -> bool {
        crate::bits::flag(self.0, 13)
    }

    /// All selected harts are unavailable.
    #[verifier::when_used_as_spec(spec_allunavail)]
    pub fn allunavail(&self) -> (r: bool)
        ensures
            r == self.spec_allunavail(),
    {
        get_flag(self.0, 13)
    }

    pub open spec fn spec_anyunavail(&self) -> bool {
        crate::bits::flag(self.0, 12)
    }

    /// Some selected hart is unavailable.
    #[verifier::when_used_as_spec(spec_anyunavail)]
    pub fn anyunavail(&self) -> (r: bool)
        ensures
            r == self.spec_anyunavail(),
    {
        get_flag(self.0, 12)
    }

    pub open spec fn spec_allrunning(&self) -> bool {
        crate::bits::flag(self.0, 11)
    }

    /// All selected harts are running.
    #[verifier::when_used_as_spec(spec_allrunning)]
    pub fn allrunning(&self) -> (r: bool)
        ensures
            r == self.spec_allrunning(),
    {
        get_flag(self.0, 11)
    }

    pub open spec fn spec_anyrunning(&self) -> bool {
        crate::bits::flag(self.0, 10)
    }

    /// Some selected hart is running.
    #[verifier::when_used_as_spec(spec_anyrunning)]
    pub fn anyrunning(&self) -> (r: bool)
        ensures
            r == self.spec_anyrunning(),
    {
        get_flag(self.0, 10)
    }

    pub open spec fn spec_allhalted(&self) -> bool {
        crate::bits::flag(self.0, 9)
    }

    /// All selected harts are halted.
    #[verifier::when_used_as_spec(spec_allhalted)]
    pub fn allhalted(&self) -> (r: bool)
        ensures
            r == self.spec_allhalted(),
    {
        get_flag(self.0, 9)
    }

    pub open spec fn spec_anyhalted(&self) -> bool {
        crate::bits::flag(self.0, 8)
    }

    /// Some selected hart is halted.
    #[verifier::when_used_as_spec(spec_anyhalted)]
    pub fn anyhalted(&self) -> (r: bool)
        ensures
            r == self.spec_anyhalted(),
    {
        get_flag(self.0, 8)
    }

    pub open spec fn spec_authenticated(&self) -> bool {
        crate::bits::flag(self.0, 7)
    }

    /// The debugger has passed authentication.
    #[verifier::when_used_as_spec(spec_authenticated)]
    pub fn authenticated(&self) -> (r: bool)
        ensures
            r == self.spec_authenticated(),
    {
        get_flag(self.0, 7)
    }

    pub open spec fn spec_authbusy(&self) -> bool {
        crate::bits::flag(self.0, 6)
    }

    /// The authentication module is busy.
    #[verifier::when_used_as_spec(spec_authbusy)]
    pub fn authbusy(&self) -> (r: bool)
        ensures
            r == self.spec_authbusy(),
    {
        get_flag(self.0, 6)
    }

    pub open spec fn spec_hasresethaltreq(&self) -> bool {
        crate::bits::flag(self.0, 5)
    }

    /// The module supports halt-on-reset.
    #[verifier::when_used_as_spec(spec_hasresethaltreq)]
    pub fn hasresethaltreq(&self) -> (r: bool)
        ensures
            r == self.spec_hasresethaltreq(),
    {
        get_flag(self.0, 5)
    }

    pub open spec fn spec_confstrptrvalid(&self) -> bool {
        crate::bits::flag(self.0, 4)
    }

    /// The `confstrptr` registers hold the address of the configuration string.
    #[verifier::when_used_as_spec(spec_confstrptrvalid)]
    pub fn confstrptrvalid(&self) -> (r: bool)
        ensures
            r == self.spec_confstrptrvalid(),
    {
        get_flag(self.0, 4)
    }

    pub open spec fn spec_version(&self) -> u32 {
        crate::bits::field(self.0, 3, 0)
    }

    /// The version of the debug specification that the module conforms to.
    #[verifier::when_used_as_spec(spec_version)]
    pub fn version(&self) -> (r: u32)
        ensures
            r == self.spec_version(),
    {
        get_field(self.0, 3, 0)
    }
}

impl DebugRegister for Dmstatus {
    open spec fn spec_address() -> u8 {
        DMSTATUS
    }

    fn address() -> (a: u8) {
        DMSTATUS
    }

    fn name() -> (n: &'static str)
        ensures
            n@ == "dmstatus"@,
    {
        "dmstatus"
    }

    open spec fn spec_from_raw(raw: u32) -> Self {
        Dmstatus(raw)
    }

    fn from_raw(raw: u32) -> (r: Self) {
        Dmstatus(raw)
    }

    open spec fn spec_raw(&self) -> u32 {
        self.0
    }

    fn raw(&self) -> (r: u32) {
        self.0
    }
}

/// Debug module control: selects harts and asks them to halt, resume or reset.
#[derive(Debug, Clone, Copy, PartialEq, Eq)]
pub struct Dmcontrol(pub u32);

impl Dmcontrol {
    /// Asks the selected harts to halt.
    pub fn set_haltreq(&mut self, value: bool)
        ensures
            final(self).0 == crate::bits::with_flag(old(self).0, 31, value),
    {
        self.0 = set_flag(self.0, 31, value);
    }

    /// Asks the selected harts to resume once.
    pub fn set_resumereq(&mut self, value: bool)
        ensures
            final(self).0 == crate::bits::with_flag(old(self).0, 30, value),
    {
        self.0 = set_flag(self.0, 30, value);
    }

    pub open spec fn spec_hartreset(&self) -> bool {
        crate::bits::flag(self.0, 29)
    }

    /// Holds the selected harts in reset.
    #[verifier::when_used_as_spec(spec_hartreset)]
    pub fn hartreset(&self) -> (r: bool)
        ensures
            r == self.spec_hartreset(),
    {
        get_flag(self.0, 29)
    }

    /// Holds the selected harts in reset.
    pub fn set_hartreset(&mut self, value: bool)
        ensures
            final(self).0 == crate::bits::with_flag(old(self).0, 29, value),
    {
        self.0 = set_flag(self.0, 29, value);
    }

    /// Clears `havereset` of the selected harts.
    pub fn set_ackhavereset(&mut self, value: bool)
        ensures
            final(self).0 == crate::bits::with_flag(old(self).0, 28, value),
    {
        self.0 = set_flag(self.0, 28, value);
    }

    pub open spec fn spec_hasel(&self) -> bool {
        crate::bits::flag(self.0, 26)
    }

    /// Selects several harts at once.
    #[verifier::when_used_as_spec(spec_hasel)]
    pub fn hasel(&self) -> (r: bool)
        ensures
            r == self.spec_hasel(),
    {
        get_flag(self.0, 26)
    }

    /// Selects several harts at once.
    pub fn set_hasel(&mut self, value: bool)
        ensures
            final(self).0 == crate::bits::with_flag(old(self).0, 26, value),
    {
        self.0 = set_flag(self.0, 26, value);
    }

    pub open spec fn spec_hartsello(&self) -> u32 {
        crate::bits::field(self.0, 25, 16)
    }

    /// The low 10 bits of the index of the selected hart.
    #[verifier::when_used_as_spec(spec_hartsello)]
    pub fn hartsello(&self) -> (r: u32)
        ensures
            r == self.spec_hartsello(),
    {
        get_field(self.0, 25, 16)
    }

    /// The low 10 bits of the index of the selected hart.
    pub fn set_hartsello(&mut self, value: u32)
        ensures
            final(self).0 == crate::bits::with_field(old(self).0, 25, 16, value),
    {
        self.0 = set_field(self.0, 25, 16, value);
    }

    pub open spec fn spec_hartselhi(&self) -> u32 {
        crate::bits::field(self.0, 15, 6)
    }

    /// The high 10 bits of the index of the selected hart.
    #[verifier::when_used_as_spec(spec_hartselhi)]
    pub fn hartselhi(&self) -> (r: u32)
        ensures
            r == self.spec_hartselhi(),
    {
        get_field(self.0, 15, 6)
    }

    /// The high 10 bits of the index of the selected hart.
    pub fn set_hartselhi(&mut self, value: u32)
        ensures
            final(self).0 == crate::bits::with_field(old(self).0, 15, 6, value),
    {
        self.0 = set_field(self.0, 15, 6, value);
    }

    /// Sets the halt-on-reset request of the selected harts.
    pub fn set_setresethaltreq(&mut self, value: bool)
        ensures
            final(self).0 == crate::bits::with_flag(old(self).0, 3, value),
    {
        self.0 = set_flag(self.0, 3, value);
    }

    /// Clears the halt-on-reset request of the selected harts.
    pub fn set_clrresethaltreq(&mut self, value: bool)
        ensures
            final(self).0 == crate::bits::with_flag(old(self).0, 2, value),
    {
        self.0 = set_flag(self.0, 2, value);
    }

    pub open spec fn spec_ndmreset(&self) -> bool {
        crate::bits::flag(self.0, 1)
    }

    /// Resets everything but the debug module.
    #[verifier::when_used_as_spec(spec_ndmreset)]
    pub fn ndmreset(&self) -> (r: bool)
        ensures
            r == self.spec_ndmreset(),
    {
        get_flag(self.0, 1)
    }

    /// Resets everything but the debug module.
    pub fn set_ndmreset(&mut self, value: bool)
        ensures
            final(self).0 == crate::bits::with_flag(old(self).0, 1, value),
    {
        self.0 = set_flag(self.0, 1, value);
    }

    pub open spec fn spec_dmactive(&self) -> bool {
        crate::bits::flag(self.0, 0)
    }

    /// The debug module is switched on.
    #[verifier::when_used_as_spec(spec_dmactive)]
    pub fn dmactive(&self) -> (r: bool)
        ensures
            r == self.spec_dmactive(),
    {
        get_flag(self.0, 0)
    }

    /// The debug module is switched on.
    pub fn set_dmactive(&mut self, value: bool)
        ensures
            final(self).0 == crate::bits::with_flag(old(self).0, 0, value),
    {
        self.0 = set_flag(self.0, 0, value);
    }
}

impl DebugRegister for Dmcontrol {
    open spec fn spec_address() -> u8 {
        DMCONTROL
    }

    fn address() -> (a: u8) {
        DMCONTROL
    }

    fn name() -> (n: &'static str)
        ensures
            n@ == "dmcontrol"@,
    {
        "dmcontrol"
    }

    open spec fn spec_from_raw(raw: u32) -> Self {
        Dmcontrol(raw)
    }

    fn from_raw(raw: u32) -> (r: Self) {
        Dmcontrol(raw)
    }

    open spec fn spec_raw(&self) -> u32 {
        self.0
    }

    fn raw(&self) -> (r: u32) {
        self.0
    }
}

/// Facts about the selected hart.
#[derive(Debug, Clone, Copy, PartialEq, Eq)]
pub struct Hartinfo(pub u32);

impl Hartinfo {
    pub open spec fn spec_nscratch(&self) -> u32 {
        crate::bits::field(self.0, 23, 20)
    }

    /// The number of `dscratch` registers that the debugger may use.
    #[verifier::when_used_as_spec(spec_nscratch)]
    pub fn nscratch(&self) -> (r: u32)
        ensures
            r == self.spec_nscratch(),
    {
        get_field(self.0, 23, 20)
    }

    pub open spec fn spec_dataaccess(&self) -> bool {
        crate::bits::flag(self.0, 16)
    }

    /// The data registers are shadowed in memory rather than in CSRs.
    #[verifier::when_used_as_spec(spec_dataaccess)]
    pub fn dataaccess(&self) -> (r: bool)
        ensures
            r == self.spec_dataaccess(),
    {
        get_flag(self.0, 16)
    }

    pub open spec fn spec_datasize(&self) -> u32 {
        crate::bits::field(self.0, 15, 12)
    }

    /// The number of CSRs or memory words that shadow the data registers.
    #[verifier::when_used_as_spec(spec_datasize)]
    pub fn datasize(&self) -> (r: u32)
        ensures
            r == self.spec_datasize(),
    {
        get_field(self.0, 15, 12)
    }

    pub open spec fn spec_dataaddr(&self) -> u32 {
        crate::bits::field(self.0, 11, 0)
    }

    /// Where the shadow of the data registers starts.
    #[verifier::when_used_as_spec(spec_dataaddr)]
    pub fn dataaddr(&self) -> (r: u32)
        ensures
            r == self.spec_dataaddr(),
    {
        get_field(self.0, 11, 0)
    }
}

impl DebugRegister for Hartinfo {
    open spec fn spec_address() -> u8 {
        HARTINFO
    }

    fn address() -> (a: u8) {
        HARTINFO
    }

    fn name() -> (n: &'static str)
        ensures
            n@ == "hartinfo"@,
    {
        "hartinfo"
    }

    open spec fn spec_from_raw(raw: u32) -> Self {
        Hartinfo(raw)
    }

    fn from_raw(raw: u32) -> (r: Self) {
        Hartinfo(raw)
    }

    open spec fn spec_raw(&self) -> u32 {
        self.0
    }

    fn raw(&self) -> (r: u32) {
        self.0
    }
}

/// Abstract command control and status.
#[derive(Debug, Clone, Copy, PartialEq, Eq)]
pub struct Abstractcs(pub u32);

impl Abstractcs {
    pub open spec fn spec_progbufsize(&self) -> u32 {
        crate::bits::field(self.0, 28, 24)
    }

    /// The size of the program buffer, in 32-bit words.
    #[verifier::when_used_as_spec(spec_progbufsize)]
    pub fn progbufsize(&self) -> (r: u32)
        ensures
            r == self.spec_progbufsize(),
    {
        get_field(self.0, 28, 24)
    }

    pub open spec fn spec_busy(&self) -> bool {
        crate::bits::flag(self.0, 12)
    }

    /// An abstract command is executing.
    #[verifier::when_used_as_spec(spec_busy)]
    pub fn busy(&self) -> (r: bool)
        ensures
            r == self.spec_busy(),
    {
        get_flag(self.0, 12)
    }

    pub open spec fn spec_cmderr(&self) -> u32 {
        crate::bits::field(self.0, 10, 8)
    }

    /// Why the last abstract command failed; written with ones to clear.
    #[verifier::when_used_as_spec(spec_cmderr)]
    pub fn cmderr(&self) -> (r: u32)
        ensures
            r == self.spec_cmderr(),
    {
        get_field(self.0, 10, 8)
    }

    /// Why the last abstract command failed; written with ones to clear.
    pub fn set_cmderr(&mut self, value: u32)
        ensures
            final(self).0 == crate::bits::with_field(old(self).0, 10, 8, value),
    {
        self.0 = set_field(self.0, 10, 8, value);
    }

    pub open spec fn spec_datacount(&self) -> u32 {
        crate::bits::field(self.0, 3, 0)
    }

    /// The number of data registers.
    #[verifier::when_used_as_spec(spec_datacount)]
    pub fn datacount(&self) -> (r: u32)
        ensures
            r == self.spec_datacount(),
    {
        get_field(self.0, 3, 0)
    }
}

impl DebugRegister for Abstractcs {
    open spec fn spec_address() -> u8 {
        ABSTRACTCS
    }

    fn address() -> (a: u8) {
        ABSTRACTCS
    }

    fn name() -> (n: &'static str)
        ensures
            n@ == "abstractcs"@,
    {
        "abstractcs"
    }

    open spec fn spec_from_raw(raw: u32) -> Self {
        Abstractcs(raw)
    }

    fn from_raw(raw: u32) -> (r: Self) {
        Abstractcs(raw)
    }

    open spec fn spec_raw(&self) -> u32 {
        self.0
    }

    fn raw(&self) -> (r: u32) {
        self.0
    }
}

/// Abstract command autoexec: which register accesses run the command again.
#[derive(Debug, Clone, Copy, PartialEq, Eq)]
pub struct Abstractauto(pub u32);

impl Abstractauto {
    pub open spec fn spec_autoexecprogbuf(&self) -> u32 {
        crate::bits::field(self.0, 31, 16)
    }

    /// One bit for each word of the program buffer.
    #[verifier::when_used_as_spec(spec_autoexecprogbuf)]
    pub fn autoexecprogbuf(&self) -> (r: u32)
        ensures
            r == self.spec_autoexecprogbuf(),
    {
        get_field(self.0, 31, 16)
    }

    /// One bit for each word of the program buffer.
    pub fn set_autoexecprogbuf(&mut self, value: u32)
        ensures
            final(self).0 == crate::bits::with_field(old(self).0, 31, 16, value),
    {
        self.0 = set_field(self.0, 31, 16, value);
    }

    pub open spec fn spec_autoexecdata(&self) -> u32 {
        crate::bits::field(self.0, 11, 0)
    }

    /// One bit for each data register.
    #[verifier::when_used_as_spec(spec_autoexecdata)]
    pub fn autoexecdata(&self) -> (r: u32)
        ensures
            r == self.spec_autoexecdata(),
    {
        get_field(self.0, 11, 0)
    }

    /// One bit for each data register.
    pub fn set_autoexecdata(&mut self, value: u32)
        ensures
            final(self).0 == crate::bits::with_field(old(self).0, 11, 0, value),
    {
        self.0 = set_field(self.0, 11, 0, value);
    }
}

impl DebugRegister for Abstractauto {
    open spec fn spec_address() -> u8 {
        ABSTRACTAUTO
    }

    fn address() -> (a: u8) {
        ABSTRACTAUTO
    }

    fn name() -> (n: &'static str)
        ensures
            n@ == "abstractauto"@,
    {
        "abstractauto"
    }

    open spec fn spec_from_raw(raw: u32) -> Self {
        Abstractauto(raw)
    }

    fn from_raw(raw: u32) -> (r: Self) {
        Abstractauto(raw)
    }

    open spec fn spec_raw(&self) -> u32 {
        self.0
    }

    fn raw(&self) -> (r: u32) {
        self.0
    }
}

/// System bus access control and status.
#[derive(Debug, Clone, Copy, PartialEq, Eq)]
pub struct Sbcs(pub u32);

impl Sbcs {
    pub open spec fn spec_sbversion(&self) -> u32 {
        crate::bits::field(self.0, 31, 29)
    }

    /// The version of the system bus interface; 1 is the one of this specification.
    #[verifier::when_used_as_spec(spec_sbversion)]
    pub fn sbversion(&self) -> (r: u32)
        ensures
            r == self.spec_sbversion(),
    {
        get_field(self.0, 31, 29)
    }

    pub open spec fn spec_sbbusyerror(&self) -> bool {
        crate::bits::flag(self.0, 22)
    }

    /// An access was started while another one was in progress.
    #[verifier::when_used_as_spec(spec_sbbusyerror)]
    pub fn sbbusyerror(&self) -> (r: bool)
        ensures
            r == self.spec_sbbusyerror(),
    {
        get_flag(self.0, 22)
    }

    /// An access was started while another one was in progress.
    pub fn set_sbbusyerror(&mut self, value: bool)
        ensures
            final(self).0 == crate::bits::with_flag(old(self).0, 22, value),
    {
        self.0 = set_flag(self.0, 22, value);
    }

    pub open spec fn spec_sbbusy(&self) -> bool {
        crate::bits::flag(self.0, 21)
    }

    /// The system bus master is busy.
    #[verifier::when_used_as_spec(spec_sbbusy)]
    pub fn sbbusy(&self) -> (r: bool)
        ensures
            r == self.spec_sbbusy(),
    {
        get_flag(self.0, 21)
    }

    pub open spec fn spec_sbreadonaddr(&self) -> bool {
        crate::bits::flag(self.0, 20)
    }

    /// Every write to `sbaddress0` starts a read at the new address.
    #[verifier::when_used_as_spec(spec_sbreadonaddr)]
    pub fn sbreadonaddr(&self) -> (r: bool)
        ensures
            r == self.spec_sbreadonaddr(),
    {
        get_flag(self.0, 20)
    }

    /// Every write to `sbaddress0` starts a read at the new address.
    pub fn set_sbreadonaddr(&mut self, value: bool)
        ensures
            final(self).0 == crate::bits::with_flag(old(self).0, 20, value),
    {
        self.0 = set_flag(self.0, 20, value);
    }

    pub open spec fn spec_sbaccess(&self) -> u32 {
        crate::bits::field(self.0, 19, 17)
    }

    /// The width of the accesses, by its code.
    #[verifier::when_used_as_spec(spec_sbaccess)]
    pub fn sbaccess(&self) -> (r: u32)
        ensures
            r == self.spec_sbaccess(),
    {
        get_field(self.0, 19, 17)
    }

    /// The width of the accesses, by its code.
    pub fn set_sbaccess(&mut self, value: u32)
        ensures
            final(self).0 == crate::bits::with_field(old(self).0, 19, 17, value),
    {
        self.0 = set_field(self.0, 19, 17, value);
    }

    pub open spec fn spec_sbautoincrement(&self) -> bool {
        crate::bits::flag(self.0, 16)
    }

    /// The address grows by the width after every access.
    #[verifier::when_used_as_spec(spec_sbautoincrement)]
    pub fn sbautoincrement(&self) -> (r: bool)
        ensures
            r == self.spec_sbautoincrement(),
    {
        get_flag(self.0, 16)
    }

    /// The address grows by the width after every access.
    pub fn set_sbautoincrement(&mut self, value: bool)
        ensures
            final(self).0 == crate::bits::with_flag(old(self).0, 16, value),
    {
        self.0 = set_flag(self.0, 16, value);
    }

    pub open spec fn spec_sbreadondata(&self) -> bool {
        crate::bits::flag(self.0, 15)
    }

    /// Every read of `sbdata0` starts a read at the address.
    #[verifier::when_used_as_spec(spec_sbreadondata)]
    pub fn sbreadondata(&self) -> (r: bool)
        ensures
            r == self.spec_sbreadondata(),
    {
        get_flag(self.0, 15)
    }

    /// Every read of `sbdata0` starts a read at the address.
    pub fn set_sbreadondata(&mut self, value: bool)
        ensures
            final(self).0 == crate::bits::with_flag(old(self).0, 15, value),
    {
        self.0 = set_flag(self.0, 15, value);
    }

    pub open spec fn spec_sberror(&self) -> u32 {
        crate::bits::field(self.0, 14, 12)
    }

    /// Why the last access failed; not zero after a failure.
    #[verifier::when_used_as_spec(spec_sberror)]
    pub fn sberror(&self) -> (r: u32)
        ensures
            r == self.spec_sberror(),
    {
        get_field(self.0, 14, 12)
    }

    /// Why the last access failed; not zero after a failure.
    pub fn set_sberror(&mut self, value: u32)
        ensures
            final(self).0 == crate::bits::with_field(old(self).0, 14, 12, value),
    {
        self.0 = set_field(self.0, 14, 12, value);
    }

    pub open spec fn spec_sbasize(&self) -> u32 {
        crate::bits::field(self.0, 11, 5)
    }

    /// The width of system bus addresses in bits.
    #[verifier::when_used_as_spec(spec_sbasize)]
    pub fn sbasize(&self) -> (r: u32)
        ensures
            r == self.spec_sbasize(),
    {
        get_field(self.0, 11, 5)
    }

    pub open spec fn spec_sbaccess128(&self) -> bool {
        crate::bits::flag(self.0, 4)
    }

    /// 128-bit accesses are supported.
    #[verifier::when_used_as_spec(spec_sbaccess128)]
    pub fn sbaccess128(&self) -> (r: bool)
        ensures
            r == self.spec_sbaccess128(),
    {
        get_flag(self.0, 4)
    }

    pub open spec fn spec_sbaccess64(&self) -> bool {
        crate::bits::flag(self.0, 3)
    }

    /// 64-bit accesses are supported.
    #[verifier::when_used_as_spec(spec_sbaccess64)]
    pub fn sbaccess64(&self) -> (r: bool)
        ensures
            r == self.spec_sbaccess64(),
    {
        get_flag(self.0, 3)
    }

    pub open spec fn spec_sbaccess32(&self) -> bool {
        crate::bits::flag(self.0, 2)
    }

    /// 32-bit accesses are supported.
    #[verifier::when_used_as_spec(spec_sbaccess32)]
    pub fn sbaccess32(&self) -> (r: bool)
        ensures
            r == self.spec_sbaccess32(),
    {
        get_flag(self.0, 2)
    }

    pub open spec fn spec_sbaccess16(&self) -> bool {
        crate::bits::flag(self.0, 1)
    }

    /// 16-bit accesses are supported.
    #[verifier::when_used_as_spec(spec_sbaccess16)]
    pub fn sbaccess16(&self) -> (r: bool)
        ensures
            r == self.spec_sbaccess16(),
    {
        get_flag(self.0, 1)
    }

    pub open spec fn spec_sbaccess8(&self) -> bool {
        crate::bits::flag(self.0, 0)
    }

    /// 8-bit accesses are supported.
    #[verifier::when_used_as_spec(spec_sbaccess8)]
    pub fn sbaccess8(&self) -> (r: bool)
        ensures
            r == self.spec_sbaccess8(),
    {
        get_flag(self.0, 0)
    }
}

impl DebugRegister for Sbcs {
    open spec fn spec_address() -> u8 {
        SBCS
    }

    fn address() -> (a: u8) {
        SBCS
    }

    fn name() -> (n: &'static str)
        ensures
            n@ == "sbcs"@,
    {
        "sbcs"
    }

    open spec fn spec_from_raw(raw: u32) -> Self {
        Sbcs(raw)
    }

    fn from_raw(raw: u32) -> (r: Self) {
        Sbcs(raw)
    }

    open spec fn spec_raw(&self) -> u32 {
        self.0
    }

    fn raw(&self) -> (r: u32) {
        self.0
    }
}

/// The abstract command that moves a register to or from `data0` and may run the program buffer.
#[derive(Debug, Clone, Copy, PartialEq, Eq)]
pub struct AccessRegisterCommand(pub u32);

impl AccessRegisterCommand {
    /// 0 for this kind of command.
    pub fn set_cmd_type(&mut self, value: u32)
        ensures
            final(self).0 == crate::bits::with_field(old(self).0, 31, 24, value),
    {
        self.0 = set_field(self.0, 31, 24, value);
    }

    /// The width of the register access, by its code.
    pub fn set_aarsize_code(&mut self, value: u32)
        ensures
            final(self).0 == crate::bits::with_field(old(self).0, 22, 20, value),
    {
        self.0 = set_field(self.0, 22, 20, value);
    }

    /// `regno` grows by one after the access.
    pub fn set_aarpostincrement(&mut self, value: bool)
        ensures
            final(self).0 == crate::bits::with_flag(old(self).0, 19, value),
    {
        self.0 = set_flag(self.0, 19, value);
    }

    /// The program buffer runs once after the transfer.
    pub fn set_postexec(&mut self, value: bool)
        ensures
            final(self).0 == crate::bits::with_flag(old(self).0, 18, value),
    {
        self.0 = set_flag(self.0, 18, value);
    }

    /// The transfer that `write` names takes place.
    pub fn set_transfer(&mut self, value: bool)
        ensures
            final(self).0 == crate::bits::with_flag(old(self).0, 17, value),
    {
        self.0 = set_flag(self.0, 17, value);
    }

    /// The transfer goes from `data0` to the register, not the other way.
    pub fn set_write(&mut self, value: bool)
        ensures
            final(self).0 == crate::bits::with_flag(old(self).0, 16, value),
    {
        self.0 = set_flag(self.0, 16, value);
    }

    /// The number of the register.
    pub fn set_regno(&mut self, value: u32)
        ensures
            final(self).0 == crate::bits::with_field(old(self).0, 15, 0, value),
    {
        self.0 = set_field(self.0, 15, 0, value);
    }
}

impl DebugRegister for AccessRegisterCommand {
    open spec fn spec_address() -> u8 {
        COMMAND
    }

    fn address() -> (a: u8) {
        COMMAND
    }

    fn name() -> (n: &'static str)
        ensures
            n@ == "command"@,
    {
        "command"
    }

    open spec fn spec_from_raw(raw: u32) -> Self {
        AccessRegisterCommand(raw)
    }

    fn from_raw(raw: u32) -> (r: Self) {
        AccessRegisterCommand(raw)
    }

    open spec fn spec_raw(&self) -> u32 {
        self.0
    }

    fn raw(&self) -> (r: u32) {
        self.0
    }
}

/// The abstract command that moves memory to or from `data0`.
#[derive(Debug, Clone, Copy, PartialEq, Eq)]
pub struct AccessMemoryCommand(pub u32);

impl AccessMemoryCommand {
    /// 2 for this kind of command.
    pub fn set_cmd_type(&mut self, value: u32)
        ensures
            final(self).0 == crate::bits::with_field(old(self).0, 31, 24, value),
    {
        self.0 = set_field(self.0, 31, 24, value);
    }

    /// Addresses are virtual.
    pub fn set_aamvirtual(&mut self, value: bool)
        ensures
            final(self).0 == crate::bits::with_flag(old(self).0, 23, value),
    {
        self.0 = set_flag(self.0, 23, value);
    }

    /// The width of the memory access, by its code.
    pub fn set_aamsize(&mut self, value: u32)
        ensures
            final(self).0 == crate::bits::with_field(old(self).0, 22, 20, value),
    {
        self.0 = set_field(self.0, 22, 20, value);
    }

    /// The address in `arg1` grows by the width after the access.
    pub fn set_aampostincrement(&mut self, value: bool)
        ensures
            final(self).0 == crate::bits::with_flag(old(self).0, 19, value),
    {
        self.0 = set_flag(self.0, 19, value);
    }

    /// The transfer goes from `data0` to memory, not the other way.
    pub fn set_write(&mut self, value: bool)
        ensures
            final(self).0 == crate::bits::with_flag(old(self).0, 16, value),
    {
        self.0 = set_flag(self.0, 16, value);
    }

    /// Reserved for the target.
    pub fn set_target_specific(&mut self, value: u32)
        ensures
            final(self).0 == crate::bits::with_field(old(self).0, 15, 14, value),
    {
        self.0 = set_field(self.0, 15, 14, value);
    }
}

impl DebugRegister for AccessMemoryCommand {
    open spec fn spec_address() -> u8 {
        COMMAND
    }

    fn address() -> (a: u8) {
        COMMAND
    }

    fn name() -> (n: &'static str)
        ensures
            n@ == "command"@,
    {
        "command"
    }

    open spec fn spec_from_raw(raw: u32) -> Self {
        AccessMemoryCommand(raw)
    }

    fn from_raw(raw: u32) -> (r: Self) {
        AccessMemoryCommand(raw)
    }

    open spec fn spec_raw(&self) -> u32 {
        crate::bits::with_field(self.0, 31, 24, 2)
    }

    fn raw(&self) -> (r: u32) {
        set_field(self.0, 31, 24, 2)
    }
}

/// The command register, as a plain word.
#[derive(Debug, Clone, Copy, PartialEq, Eq)]
pub struct Command(pub u32);

impl DebugRegister for Command {
    open spec fn spec_address() -> u8 {
        COMMAND
    }

    fn address() -> (a: u8) {
        COMMAND
    }

    fn name() -> (n: &'static str)
        ensures
            n@ == "command"@,
    {
        "command"
    }

    open spec fn spec_from_raw(raw: u32) -> Self {
        Command(raw)
    }

    fn from_raw(raw: u32) -> (r: Self) {
        Command(raw)
    }

    open spec fn spec_raw(&self) -> u32 {
        self.0
    }

    fn raw(&self) -> (r: u32) {
        self.0
    }
}

/// The first data register: the argument and the result of abstract commands.
#[derive(Debug, Clone, Copy, PartialEq, Eq)]
pub struct Data0(pub u32);

impl DebugRegister for Data0 {
    open spec fn spec_address() -> u8 {
        DATA0
    }

    fn address() -> (a: u8) {
        DATA0
    }

    fn name() -> (n: &'static str)
        ensures
            n@ == "data0"@,
    {
        "data0"
    }

    open spec fn spec_from_raw(raw: u32) -> Self {
        Data0(raw)
    }

    fn from_raw(raw: u32) -> (r: Self) {
        Data0(raw)
    }

    open spec fn spec_raw(&self) -> u32 {
        self.0
    }

    fn raw(&self) -> (r: u32) {
        self.0
    }
}

/// Bits 31:0 of the system bus address.
#[derive(Debug, Clone, Copy, PartialEq, Eq)]
pub struct Sbaddress0(pub u32);

impl DebugRegister for Sbaddress0 {
    open spec fn spec_address() -> u8 {
        SBADDRESS0
    }

    fn address() -> (a: u8) {
        SBADDRESS0
    }

    fn name() -> (n: &'static str)
        ensures
            n@ == "sbaddress0"@,
    {
        "sbaddress0"
    }

    open spec fn spec_from_raw(raw: u32) -> Self {
        Sbaddress0(raw)
    }

    fn from_raw(raw: u32) -> (r: Self) {
        Sbaddress0(raw)
    }

    open spec fn spec_raw(&self) -> u32 {
        self.0
    }

    fn raw(&self) -> (r: u32) {
        self.0
    }
}

/// Bits 31:0 of the system bus data.
#[derive(Debug, Clone, Copy, PartialEq, Eq)]
pub struct Sbdata0(pub u32);

impl DebugRegister for Sbdata0 {
    open spec fn spec_address() -> u8 {
        SBDATA0
    }

    fn address() -> (a: u8) {
        SBDATA0
    }

    fn name() -> (n: &'static str)
        ensures
            n@ == "sbdata0"@,
    {
        "sbdata0"
    }

    open spec fn spec_from_raw(raw: u32) -> Self {
        Sbdata0(raw)
    }

    fn from_raw(raw: u32) -> (r: Self) {
        Sbdata0(raw)
    }

    open spec fn spec_raw(&self) -> u32 {
        self.0
    }

    fn raw(&self) -> (r: u32) {
        self.0
    }
}

/// Bits 31:0 of the address of the configuration string.
#[derive(Debug, Clone, Copy, PartialEq, Eq)]
pub struct Confstrptr0(pub u32);

impl DebugRegister for Confstrptr0 {
    open spec fn spec_address() -> u8 {
        CONFSTRPTR0
    }

    fn address() -> (a: u8) {
        CONFSTRPTR0
    }

    fn name() -> (n: &'static str)
        ensures
            n@ == "confstrptr0"@,
    {
        "confstrptr0"
    }

    open spec fn spec_from_raw(raw: u32) -> Self {
        Confstrptr0(raw)
    }

    fn from_raw(raw: u32) -> (r: Self) {
        Confstrptr0(raw)
    }

    open spec fn spec_raw(&self) -> u32 {
        self.0
    }

    fn raw(&self) -> (r: u32) {
        self.0
    }
}

/// Bits 63:32 of the address of the configuration string.
#[derive(Debug, Clone, Copy, PartialEq, Eq)]
pub struct Confstrptr1(pub u32);

impl DebugRegister for Confstrptr1 {
    open spec fn spec_address() -> u8 {
        CONFSTRPTR1
    }

    fn address() -> (a: u8) {
        CONFSTRPTR1
    }

    fn name() -> (n: &'static str)
        ensures
            n@ == "confstrptr1"@,
    {
        "confstrptr1"
    }

    open spec fn spec_from_raw(raw: u32) -> Self {
        Confstrptr1(raw)
    }

    fn from_raw(raw: u32) -> (r: Self) {
        Confstrptr1(raw)
    }

    open spec fn spec_raw(&self) -> u32 {
        self.0
    }

    fn raw(&self) -> (r: u32) {
        self.0
    }
}

/// Bits 95:64 of the address of the configuration string.
#[derive(Debug, Clone, Copy, PartialEq, Eq)]
pub struct Confstrptr2(pub u32);

impl DebugRegister for Confstrptr2 {
    open spec fn spec_address() -> u8 {
        CONFSTRPTR2
    }

    fn address() -> (a: u8) {
        CONFSTRPTR2
    }

    fn name() -> (n: &'static str)
        ensures
            n@ == "confstrptr2"@,
    {
        "confstrptr2"
    }

    open spec fn spec_from_raw(raw: u32) -> Self {
        Confstrptr2(raw)
    }

    fn from_raw(raw: u32) -> (r: Self) {
        Confstrptr2(raw)
    }

    open spec fn spec_raw(&self) -> u32 {
        self.0
    }

    fn raw(&self) -> (r: u32) {
        self.0
    }
}

/// Bits 127:96 of the address of the configuration string.
#[derive(Debug, Clone, Copy, PartialEq, Eq)]
pub struct Confstrptr3(pub u32);

impl DebugRegister for Confstrptr3 {
    open spec fn spec_address() -> u8 {
        CONFSTRPTR3
    }

    fn address() -> (a: u8) {
        CONFSTRPTR3
    }

    fn name() -> (n: &'static str)
        ensures
            n@ == "confstrptr3"@,
    {
        "confstrptr3"
    }

    open spec fn spec_from_raw(raw: u32) -> Self {
        Confstrptr3(raw)
    }

    fn from_raw(raw: u32) -> (r: Self) {
        Confstrptr3(raw)
    }

    open spec fn spec_raw(&self) -> u32 {
        self.0
    }

    fn raw(&self) -> (r: u32) {
        self.0
    }
}

impl Dmcontrol {
    /// The word that keeps the module on, asks nothing of the harts and
    /// acknowledges a reset: what is written before an abstract command.
    pub open spec fn spec_for_abstract_command() -> u32 {
        0x1000_0001
    }

    /// The word that is written to `dmcontrol` before an abstract command.
    pub fn for_abstract_command() -> (r: Self)
        ensures
            r.0 == Self::spec_for_abstract_command(),
    {
        let mut dmcontrol = Dmcontrol(0);
        dmcontrol.set_haltreq(false);
        dmcontrol.set_resumereq(false);
        dmcontrol.set_ackhavereset(true);
        dmcontrol.set_dmactive(true);
        assert(crate::bits::with_flag(
            crate::bits::with_flag(
                crate::bits::with_flag(crate::bits::with_flag(0u32, 31, false), 30, false),
                28,
                true,
            ),
            0,
            true,
        ) == 0x1000_0001u32) by (bit_vector);
        dmcontrol
    }

    /// The word that keeps the module on and selects the hart whose index is
    /// the lowest 20 bits of `index`.
    pub open spec fn spec_select_hart(index: u32) -> u32 {
        ((index & 0x3ffu32) << 16u32) | (((index >> 10u32) & 0x3ffu32) << 6u32) | 1u32
    }

    /// The word that keeps the module on and selects a hart.
    pub fn select_hart(index: u32) -> (r: Self)
        ensures
            r.0 == Self::spec_select_hart(index),
    {
        let mut control = Dmcontrol(0);
        control.set_dmactive(true);
        control.set_hartsel(index);
        assert(Self::with_hartsel(crate::bits::with_flag(0u32, 0, true), index) == ((index
            & 0x3ffu32) << 16u32) | (((index >> 10u32) & 0x3ffu32) << 6u32) | 1u32)
            by (bit_vector);
        control
    }

    /// The selected hart of the word that selects a hart is that hart.
    pub proof fn lemma_select_hart_selects(index: u32)
        requires
            index >> 20u32 == 0,
        ensures
            Dmcontrol(Self::spec_select_hart(index)).spec_hartsel() == index,
            Dmcontrol(Self::spec_select_hart(index)).spec_dmactive(),
    {
        let raw = Self::spec_select_hart(index);
        assert((((raw >> 6u32) & (0xffff_ffffu32 >> 22u32)) << 10u32) | ((raw >> 16u32) & (
        0xffff_ffffu32 >> 22u32)) == index && (raw >> 0u32) & (0xffff_ffffu32 >> 31u32) == 1)
            by (bit_vector)
            requires
                raw == ((index & 0x3ffu32) << 16u32) | (((index >> 10u32) & 0x3ffu32) << 6u32)
                    | 1u32,
                index >> 20u32 == 0,
        ;
    }
}

impl Abstractcs {
    /// The word that clears `cmderr`: ones in all of its bits.
    pub open spec fn spec_clear_cmderr() -> u32 {
        0x700
    }

    /// The word that clears `cmderr`.
    pub fn clear_cmderr() -> (r: Self)
        ensures
            r.0 == Self::spec_clear_cmderr(),
    {
        let mut abstractcs = Abstractcs(0);
        abstractcs.set_cmderr(0x7);
        assert(crate::bits::with_field(0u32, 10, 8, 0x7) == 0x700u32) by (bit_vector);
        abstractcs
    }

    /// The field `cmderr` has three bits.
    pub proof fn lemma_cmderr_range(self)
        ensures
            self.spec_cmderr() <= 7,
    {
        let raw = self.0;
        assert((raw >> 8u32) & (0xffff_ffffu32 >> 29u32) <= 7) by (bit_vector);
    }

    /// The fields of sizes have five and four bits.
    pub proof fn lemma_size_ranges(self)
        ensures
            self.spec_progbufsize() <= 31,
            self.spec_datacount() <= 15,
    {
        let raw = self.0;
        assert((raw >> 24u32) & (0xffff_ffffu32 >> 27u32) <= 31) by (bit_vector);
        assert((raw >> 0u32) & (0xffff_ffffu32 >> 28u32) <= 15) by (bit_vector);
    }
}

impl Hartinfo {
    /// The field `nscratch` has four bits.
    pub proof fn lemma_nscratch_range(self)
        ensures
            self.spec_nscratch() <= 15,
    {
        let raw = self.0;
        assert((raw >> 20u32) & (0xffff_ffffu32 >> 28u32) <= 15) by (bit_vector);
    }
}

impl Dmstatus {
    /// The field `version` has four bits.
    pub proof fn lemma_version_range(self)
        ensures
            self.spec_version() <= 15,
    {
        let raw = self.0;
        assert((raw >> 0u32) & (0xffff_ffffu32 >> 28u32) <= 15) by (bit_vector);
    }
}

impl AccessRegisterCommand {
    /// The command that moves the register `regno` to `data0`, or from it where
    /// `write` is set, in the given width, and then runs the program buffer
    /// where `postexec` is set.
    pub open spec fn spec_transfer(
        regno: u16,
        width: crate::error::RiscvBusAccess,
        write: bool,
        postexec: bool,
    ) -> u32 {
        ((width.spec_code() as u32) << 20u32) | (if postexec {
            0x4_0000u32
        } else {
            0u32
        }) | 0x2_0000u32 | (if write {
            0x1_0000u32
        } else {
            0u32
        }) | (regno as u32)
    }

    /// The command that moves a register to or from `data0`.
    pub fn transfer(
        regno: u16,
        width: crate::error::RiscvBusAccess,
        write: bool,
        postexec: bool,
    ) -> (r:
        Self)
        ensures
            r.0 == Self::spec_transfer(regno, width, write, postexec),
    {
        let mut command = AccessRegisterCommand(0);
        command.set_cmd_type(0);
        command.set_transfer(true);
        command.set_write(write);
        command.set_aarsize(width);
        command.set_postexec(postexec);
        command.set_regno(regno as u32);
        let code: u32 = width.code() as u32;
        let w: u32 = if write {
            1
        } else {
            0
        };
        let p: u32 = if postexec {
            1
        } else {
            0
        };
        assert(crate::bits::with_field(
            crate::bits::with_field(
                crate::bits::with_field(
                    crate::bits::with_field(
                        crate::bits::with_field(
                            crate::bits::with_field(0u32, 31, 24, 0),
                            17,
                            17,
                            1,
                        ),
                        16,
                        16,
                        w,
                    ),
                    22,
                    20,
                    code,
                ),
                18,
                18,
                p,
            ),
            15,
            0,
            regno as u32,
        ) == (code << 20u32) | (p << 18u32) | 0x2_0000u32 | (w << 16u32) | (regno as u32))
            by (bit_vector)
            requires
                code <= 4,
                w <= 1,
                p <= 1,
        ;
        assert(p << 18u32 == if postexec {
            0x4_0000u32
        } else {
            0u32
        }) by (bit_vector)
            requires
                p == (if postexec {
                    1u32
                } else {
                    0u32
                }),
        ;
        assert(w << 16u32 == if write {
            0x1_0000u32
        } else {
            0u32
        }) by (bit_vector)
            requires
                w == (if write {
                    1u32
                } else {
                    0u32
                }),
        ;
        command
    }

    /// Each field of the command holds what the command was made of.
    pub proof fn lemma_transfer_fields(
        regno: u16,
        width: crate::error::RiscvBusAccess,
        write: bool,
        postexec: bool,
    )
        ensures
            crate::bits::field(Self::spec_transfer(regno, width, write, postexec), 31, 24) == 0,
            crate::bits::field(Self::spec_transfer(regno, width, write, postexec), 22, 20)
                == width.spec_code(),
            crate::bits::flag(Self::spec_transfer(regno, width, write, postexec), 19) == false,
            crate::bits::flag(Self::spec_transfer(regno, width, write, postexec), 18) == postexec,
            crate::bits::flag(Self::spec_transfer(regno, width, write, postexec), 17) == true,
            crate::bits::flag(Self::spec_transfer(regno, width, write, postexec), 16) == write,
            crate::bits::field(Self::spec_transfer(regno, width, write, postexec), 15, 0) == regno,
    {
        let raw = Self::spec_transfer(regno, width, write, postexec);
        let code: u32 = width.spec_code() as u32;
        let p: u32 = if postexec {
            0x4_0000u32
        } else {
            0u32
        };
        let w: u32 = if write {
            0x1_0000u32
        } else {
            0u32
        };
        let r: u32 = regno as u32;
        assert((raw >> 24u32) & (0xffff_ffffu32 >> 24u32) == 0 && (raw >> 20u32) & (0xffff_ffffu32
            >> 29u32) == code && (raw >> 19u32) & (0xffff_ffffu32 >> 31u32) != 1 && ((raw >> 18u32)
            & (0xffff_ffffu32 >> 31u32) == 1 <==> p != 0) && (raw >> 17u32) & (0xffff_ffffu32
            >> 31u32) == 1 && ((raw >> 16u32) & (0xffff_ffffu32 >> 31u32) == 1 <==> w != 0) && (raw
            >> 0u32) & (0xffff_ffffu32 >> 16u32) == r) by (bit_vector)
            requires
                raw == (code << 20u32) | p | 0x2_0000u32 | w | r,
                code <= 4,
                p == 0x4_0000u32 || p == 0,
                w == 0x1_0000u32 || w == 0,
                r <= 0xffff,
        ;
    }

    /// The command that moves nothing and runs the program buffer.
    pub open spec fn spec_postexec_only() -> u32 {
        0x4_0000
    }

    /// The command that runs the program buffer alone is an access to a
    /// register that moves nothing.
    pub proof fn lemma_postexec_only_fields()
        ensures
            crate::bits::field(Self::spec_postexec_only(), 31, 24) == 0,
            crate::bits::flag(Self::spec_postexec_only(), 18) == true,
            crate::bits::flag(Self::spec_postexec_only(), 17) == false,
    {
        assert((0x4_0000u32 >> 24u32) & (0xffff_ffffu32 >> 24u32) == 0 && (0x4_0000u32 >> 18u32) & (
        0xffff_ffffu32 >> 31u32) == 1 && (0x4_0000u32 >> 17u32) & (0xffff_ffffu32 >> 31u32) != 1)
            by (bit_vector);
    }

    /// The command that moves nothing and runs the program buffer.
    pub fn postexec_only() -> (r: Self)
        ensures
            r.0 == Self::spec_postexec_only(),
    {
        let mut command = AccessRegisterCommand(0);
        command.set_postexec(true);
        assert(crate::bits::with_flag(0u32, 18, true) == 0x4_0000u32) by (bit_vector);
        command
    }
}

impl Sbcs {
    /// The word that sets up system bus accesses of a width.
    pub open spec fn spec_for_access(
        width: crate::error::RiscvBusAccess,
        readonaddr: bool,
        readondata: bool,
        autoincrement: bool,
    ) -> u32 {
        ((width.spec_code() as u32) << 17u32) | (if readonaddr {
            0x10_0000u32
        } else {
            0u32
        }) | (if autoincrement {
            0x1_0000u32
        } else {
            0u32
        }) | (if readondata {
            0x8000u32
        } else {
            0u32
        })
    }

    /// The word that sets up system bus accesses of a width.
    pub fn for_access(
        width: crate::error::RiscvBusAccess,
        readonaddr: bool,
        readondata: bool,
        autoincrement: bool,
    ) -> (r: Self)
        ensures
            r.0 == Self::spec_for_access(width, readonaddr, readondata, autoincrement),
    {
        let mut sbcs = Sbcs(0);
        sbcs.set_sbaccess(width.code() as u32);
        sbcs.set_sbreadonaddr(readonaddr);
        sbcs.set_sbreadondata(readondata);
        sbcs.set_sbautoincrement(autoincrement);
        let code: u32 = width.code() as u32;
        let a: u32 = if readonaddr {
            1
        } else {
            0
        };
        let d: u32 = if readondata {
            1
        } else {
            0
        };
        let i: u32 = if autoincrement {
            1
        } else {
            0
        };
        assert(crate::bits::with_field(
            crate::bits::with_field(
                crate::bits::with_field(crate::bits::with_field(0u32, 19, 17, code), 20, 20, a),
                15,
                15,
                d,
            ),
            16,
            16,
            i,
        ) == (code << 17u32) | (if a == 1 {
            0x10_0000u32
        } else {
            0u32
        }) | (if i == 1 {
            0x1_0000u32
        } else {
            0u32
        }) | (if d == 1 {
            0x8000u32
        } else {
            0u32
        })) by (bit_vector)
            requires
                code <= 4,
                a <= 1,
                d <= 1,
                i <= 1,
        ;
        sbcs
    }

    /// The word that sets up accesses of a width holds the code of the
    /// width and the three choices, and no bit that would clear an error.
    pub proof fn lemma_for_access_fields(
        width: crate::error::RiscvBusAccess,
        readonaddr: bool,
        readondata: bool,
        autoincrement: bool,
    )
        ensures
            Sbcs(Self::spec_for_access(width, readonaddr, readondata, autoincrement)).spec_sbaccess()
                == width.spec_code(),
            Sbcs(Self::spec_for_access(width, readonaddr, readondata, autoincrement)).spec_sberror()
                == 0,
            Sbcs(
                Self::spec_for_access(width, readonaddr, readondata, autoincrement),
            ).spec_sbreadonaddr() == readonaddr,
            Sbcs(
                Self::spec_for_access(width, readonaddr, readondata, autoincrement),
            ).spec_sbreadondata() == readondata,
            Sbcs(
                Self::spec_for_access(width, readonaddr, readondata, autoincrement),
            ).spec_sbautoincrement() == autoincrement,
    {
        let code: u32 = width.spec_code() as u32;
        let raw = Self::spec_for_access(width, readonaddr, readondata, autoincrement);
        let a: u32 = if readonaddr {
            0x10_0000u32
        } else {
            0u32
        };
        let i: u32 = if autoincrement {
            0x1_0000u32
        } else {
            0u32
        };
        let d: u32 = if readondata {
            0x8000u32
        } else {
            0u32
        };
        assert((raw >> 17u32) & (0xffff_ffffu32 >> 29u32) == code && (raw >> 12u32) & (
        0xffff_ffffu32 >> 29u32) == 0 && ((raw >> 20u32) & (0xffff_ffffu32 >> 31u32) == 1 <==> a
            != 0) && ((raw >> 16u32) & (0xffff_ffffu32 >> 31u32) == 1 <==> i != 0) && ((raw
            >> 15u32) & (0xffff_ffffu32 >> 31u32) == 1 <==> d != 0)) by (bit_vector)
            requires
                raw == (code << 17u32) | a | i | d,
                code <= 4,
                a == 0x10_0000u32 || a == 0,
                i == 0x1_0000u32 || i == 0,
                d == 0x8000u32 || d == 0,
        ;
    }
}

impl Abstractauto {
    /// The word with a one for each of the first `progbuf_size` words of the
    /// program buffer and for each of the first `data_count` data registers, as
    /// far as the register has bits for them.
    pub open spec fn spec_all(progbuf_size: u8, data_count: u8) -> u32 {
        (((((1u32 << (progbuf_size as u32)) - 1) as u32) & 0xffffu32) << 16u32) | ((((1u32 << (
        data_count as u32)) - 1) as u32) & 0xfffu32)
    }

    /// The word with a one for each word of the program buffer and each data
    /// register.
    pub fn all(progbuf_size: u8, data_count: u8) -> (r: Self)
        requires
            progbuf_size < 32,
            data_count < 32,
        ensures
            r.0 == Self::spec_all(progbuf_size, data_count),
    {
        let p: u32 = progbuf_size as u32;
        let d: u32 = data_count as u32;
        assert(1u32 << p >= 1) by (bit_vector)
            requires
                p < 32,
        ;
        assert(1u32 << d >= 1) by (bit_vector)
            requires
                d < 32,
        ;
        let progbuf_bits: u32 = (1u32 << p) - 1;
        let data_bits: u32 = (1u32 << d) - 1;
        let mut abstractauto = Abstractauto(0);
        abstractauto.set_autoexecprogbuf(progbuf_bits);
        abstractauto.set_autoexecdata(data_bits);
        assert(crate::bits::with_field(
            crate::bits::with_field(0u32, 31, 16, progbuf_bits),
            11,
            0,
            data_bits,
        ) == ((progbuf_bits & 0xffffu32) << 16u32) | (data_bits & 0xfffu32)) by (bit_vector);
        abstractauto
    }
}

} // verus!
