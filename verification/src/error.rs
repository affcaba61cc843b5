//! What can go wrong while talking to a debug module.

use vstd::prelude::*;

verus! {

/// The status that the transport module reports for a DMI operation.
#[derive(Debug, Clone, Copy, PartialEq, Eq)]
pub enum DmiOperationStatus {
    Success,
    Reserved,
    OperationFailed,
    RequestInProgress,
}

/// Why an abstract command failed: the `cmderr` field of `abstractcs`.
#[derive(Debug, Clone, Copy, PartialEq, Eq)]
pub enum AbstractCommandErrorKind {
    /// No error happened.
    NoError,
    /// A command was executing while `command`, `abstractcs` or `abstractauto`
    /// was written, or while a data or program buffer register was accessed.
    Busy,
    /// The requested command is not supported.
    NotSupported,
    /// An exception occurred while executing the command.
    Exception,
    /// The hart was not in the state that the command needs, or is unavailable.
    HaltResume,
    /// The command failed due to a bus error.
    Bus,
    /// A reserved code.
    _Reserved,
    /// The command failed for another reason.
    Other,
}

impl AbstractCommandErrorKind {
    /// The kind that stands for a value of the three-bit field `cmderr`.
    pub open spec fn of_code(value: u8) -> Self {
        if value == 0 {
            AbstractCommandErrorKind::NoError
        } else if value == 1 {
            AbstractCommandErrorKind::Busy
        } else if value == 2 {
            AbstractCommandErrorKind::NotSupported
        } else if value == 3 {
            AbstractCommandErrorKind::Exception
        } else if value == 4 {
            AbstractCommandErrorKind::HaltResume
        } else if value == 5 {
            AbstractCommandErrorKind::Bus
        } else if value == 6 {
            AbstractCommandErrorKind::_Reserved
        } else {
            AbstractCommandErrorKind::Other
        }
    }

    /// The value of `cmderr` that a kind stands for.
    pub open spec fn code(self) -> u8 {
        match self {
            AbstractCommandErrorKind::NoError => 0,
            AbstractCommandErrorKind::Busy => 1,
            AbstractCommandErrorKind::NotSupported => 2,
            AbstractCommandErrorKind::Exception => 3,
            AbstractCommandErrorKind::HaltResume => 4,
            AbstractCommandErrorKind::Bus => 5,
            AbstractCommandErrorKind::_Reserved => 6,
            AbstractCommandErrorKind::Other => 7,
        }
    }

    /// Decodes `cmderr`. The field has three bits: a larger value is a caller's mistake.
    pub fn parse(value: u8) -> (kind: Self)
        requires
            value <= 7,
        ensures
            kind == Self::of_code(value),
            kind.code() == value,
    {
        match value {
            0 => AbstractCommandErrorKind::NoError,
            1 => AbstractCommandErrorKind::Busy,
            2 => AbstractCommandErrorKind::NotSupported,
            3 => AbstractCommandErrorKind::Exception,
            4 => AbstractCommandErrorKind::HaltResume,
            5 => AbstractCommandErrorKind::Bus,
            6 => AbstractCommandErrorKind::_Reserved,
            _ => AbstractCommandErrorKind::Other,
        }
    }
}

/// The version of a debug module, from the `version` field of `dmstatus`.
#[derive(Debug, Clone, Copy, PartialEq, Eq)]
pub enum DebugModuleVersion {
    /// There is no debug module.
    NoModule,
    /// The module conforms to version 0.11 of the debug specification.
    Version0_11,
    /// The module conforms to version 0.13 of the debug specification.
    Version0_13,
    /// There is a module, and it conforms to no known version.
    NonConforming,
    /// Any other value of the field.
    Unknown(u8),
}

impl DebugModuleVersion {
    pub open spec fn of_raw(raw: u8) -> Self {
        if raw == 0 {
            DebugModuleVersion::NoModule
        } else if raw == 1 {
            DebugModuleVersion::Version0_11
        } else if raw == 2 {
            DebugModuleVersion::Version0_13
        } else if raw == 15 {
            DebugModuleVersion::NonConforming
        } else {
            DebugModuleVersion::Unknown(raw)
        }
    }

    pub open spec fn is_supported(self) -> bool {
        self is Version0_13
    }

    /// Whether this is the one version that the library can drive.
    pub fn supported(&self) -> (r: bool)
        ensures
            r == self.is_supported(),
    {
        match self {
            DebugModuleVersion::Version0_13 => true,
            _ => false,
        }
    }
}

impl From<u8> for DebugModuleVersion {
    fn from(raw: u8) -> (version: Self) {
        match raw {
            0 => DebugModuleVersion::NoModule,
            1 => DebugModuleVersion::Version0_11,
            2 => DebugModuleVersion::Version0_13,
            15 => DebugModuleVersion::NonConforming,
            other => DebugModuleVersion::Unknown(other),
        }
    }
}

impl vstd::std_specs::convert::FromSpecImpl<u8> for DebugModuleVersion {
    open spec fn obeys_from_spec() -> bool {
        true
    }

    open spec fn from_spec(raw: u8) -> Self {
        DebugModuleVersion::of_raw(raw)
    }
}

/// The width of one access to the system bus or to a register.
#[derive(Debug, Clone, Copy, PartialEq, Eq, PartialOrd, Hash)]
pub enum RiscvBusAccess {
    /// 1 byte
    A8,
    /// 2 bytes
    A16,
    /// 4 bytes
    A32,
    /// 8 bytes
    A64,
    /// 16 bytes
    A128,
}

impl RiscvBusAccess {
    /// The code of the width in `sbaccess`, `aarsize` and the `funct3` of loads
    /// and stores: the binary logarithm of the width in bytes.
    pub open spec fn spec_code(self) -> u8 {
        match self {
            RiscvBusAccess::A8 => 0,
            RiscvBusAccess::A16 => 1,
            RiscvBusAccess::A32 => 2,
            RiscvBusAccess::A64 => 3,
            RiscvBusAccess::A128 => 4,
        }
    }

    #[verifier::when_used_as_spec(spec_code)]
    pub fn code(self) -> (r: u8)
        ensures
            r == self.spec_code(),
    {
        match self {
            RiscvBusAccess::A8 => 0,
            RiscvBusAccess::A16 => 1,
            RiscvBusAccess::A32 => 2,
            RiscvBusAccess::A64 => 3,
            RiscvBusAccess::A128 => 4,
        }
    }

    pub open spec fn spec_byte_width(&self) -> usize {
        match self {
            RiscvBusAccess::A8 => 1,
            RiscvBusAccess::A16 => 2,
            RiscvBusAccess::A32 => 4,
            RiscvBusAccess::A64 => 8,
            RiscvBusAccess::A128 => 16,
        }
    }

    /// The width of an access in bytes.
    #[verifier::when_used_as_spec(spec_byte_width)]
    pub fn byte_width(&self) -> (r: usize)
        ensures
            r == self.spec_byte_width(),
    {
        match self {
            RiscvBusAccess::A8 => 1,
            RiscvBusAccess::A16 => 2,
            RiscvBusAccess::A32 => 4,
            RiscvBusAccess::A64 => 8,
            RiscvBusAccess::A128 => 16,
        }
    }

    /// The number of 32-bit slots that a value of this width takes.
    pub open spec fn spec_slots(&self) -> usize {
        match self {
            RiscvBusAccess::A64 => 2,
            RiscvBusAccess::A128 => 4,
            _ => 1,
        }
    }

    #[verifier::when_used_as_spec(spec_slots)]
    pub fn slots(&self) -> (r: usize)
        ensures
            r == self.spec_slots(),
    {
        match self {
            RiscvBusAccess::A64 => 2,
            RiscvBusAccess::A128 => 4,
            _ => 1,
        }
    }
}

impl From<RiscvBusAccess> for u8 {
    fn from(value: RiscvBusAccess) -> (code: u8) {
        value.code()
    }
}

impl vstd::std_specs::convert::FromSpecImpl<RiscvBusAccess> for u8 {
    open spec fn obeys_from_spec() -> bool {
        true
    }

    open spec fn from_spec(value: RiscvBusAccess) -> u8 {
        value.spec_code()
    }
}

/// A fault of the debug probe that carries the transport.
#[derive(Debug, PartialEq, Eq)]
pub enum DebugProbeError {
    /// The probe does not implement what was asked of it.
    NotImplemented,
    /// The probe did not answer in time.
    Timeout,
    /// A fault that only the probe's driver can explain, by the driver's own code.
    ProbeSpecific(u32),
    /// A batch of scheduled commands did not yield the result that was waited for.
    BatchError,
    /// The architecture layer failed while it was driving the probe.
    ArchitectureSpecific(Box<RiscvError>),
    /// Any other failure, with its cause.
    Other(Box<RiscvError>),
}

/// A failure of an operation on a RISC-V debug module.
#[derive(Debug, PartialEq, Eq)]
pub enum RiscvError {
    /// A DMI register could not be read or written.
    DmiTransfer(DmiOperationStatus),
    /// The debug probe failed.
    DebugProbe(DebugProbeError),
    /// A register access was not answered in time.
    Timeout,
    /// An abstract command failed.
    AbstractCommand(AbstractCommandErrorKind),
    /// A request for reset, resume or halt was not acknowledged.
    RequestNotAcknowledged,
    /// The version of the debug transport module is not supported.
    UnsupportedDebugTransportModuleVersion(u8),
    /// The version of the debug module is not supported.
    UnsupportedDebugModuleVersion(DebugModuleVersion),
    /// There is no program buffer register of this index.
    UnsupportedProgramBufferRegister(usize),
    /// The program buffer is too small for the program.
    ProgramBufferTooSmall,
    /// Memory accesses of this width are not supported.
    UnsupportedBusAccessWidth(RiscvBusAccess),
    /// An access through the system bus failed.
    SystemBusAccess,
    /// The trigger is of a type that cannot hold an address breakpoint.
    UnexpectedTriggerType(u32),
}

/// A failure as the architecture-neutral layers see it.
#[derive(Debug, PartialEq, Eq)]
pub enum Error {
    /// The debug probe failed.
    Probe(DebugProbeError),
    /// The architecture layer failed.
    ArchitectureSpecific(Box<RiscvError>),
    /// An access starts at this address and does not fit the 32 bits of
    /// addresses that the target has.
    AddressOutOfRange(u64),
    /// A value does not fit the 32 bits that were asked for.
    ValueTooLarge(u64),
    /// Every breakpoint unit of the core is in use.
    NoBreakpointUnitAvailable,
    /// No breakpoint is set at this address.
    NoBreakpointAt(u64),
}

impl Error {
    /// How a failure of the RISC-V layer is handed on: a probe's fault as it
    /// is, anything else as a fault of the architecture.
    pub open spec fn of_riscv(err: RiscvError) -> Error {
        match err {
            RiscvError::DebugProbe(e) => Error::Probe(e),
            other => Error::ArchitectureSpecific(Box::new(other)),
        }
    }
}

impl From<RiscvError> for Error {
    fn from(err: RiscvError) -> (e: Error) {
        match err {
            RiscvError::DebugProbe(e) => Error::Probe(e),
            other => Error::ArchitectureSpecific(Box::new(other)),
        }
    }
}

impl vstd::std_specs::convert::FromSpecImpl<RiscvError> for Error {
    open spec fn obeys_from_spec() -> bool {
        true
    }

    open spec fn from_spec(err: RiscvError) -> Error {
        Error::of_riscv(err)
    }
}

} // verus!
