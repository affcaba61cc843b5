//! The debug transport module: the library's way to the registers of the debug
//! module. The library only asks that accesses take place in the order in which
//! they are made; it promises itself nothing of what they return.

use crate::error::{DebugProbeError, RiscvError};
use vstd::prelude::*;

verus! {

/// How long an access to a DMI register may take, in milliseconds.
pub const RISCV_TIMEOUT_MS: u64 = 5000;

/// How long an access to a DMI register may take, in nanoseconds.
pub const RISCV_TIMEOUT_NS: u128 = 5_000_000_000;

/// What a DMI access does.
#[derive(Debug, Clone, Copy, PartialEq, Eq)]
pub enum DmiOperation {
    NoOp,
    Read,
    Write,
}

impl DmiOperation {
    pub open spec fn spec_code(self) -> u8 {
        match self {
            DmiOperation::NoOp => 0,
            DmiOperation::Read => 1,
            DmiOperation::Write => 2,
        }
    }

    /// The value of the `op` field of a DMI access.
    #[verifier::when_used_as_spec(spec_code)]
    pub fn code(self) -> (r: u8)
        ensures
            r == self.spec_code(),
    {
        match self {
            DmiOperation::NoOp => 0,
            DmiOperation::Read => 1,
            DmiOperation::Write => 2,
        }
    }
}

/// What one command of a batch brought back.
#[derive(Debug, PartialEq, Eq)]
pub enum CommandResult {
    Nothing,
    U8(u8),
    U16(u16),
    U32(u32),
    VecU8(Vec<u8>),
}

/// Where in the results of a batch the result of a scheduled access will stand.
pub type DeferredResultIndex = usize;

/// A debug transport module.
///
/// An immediate access takes place at once. A read returns what the access
/// before it left behind, so a register is read with a `Read` of its address
/// followed by a `NoOp`, whose result is the register's value. A scheduled
/// access takes place when the batch is executed; the index that scheduling
/// returns says where among the batch's results its result stands.
pub trait Dtm {
    /// Clears the error state that an earlier connection may have left.
    fn reset(&mut self) -> Result<(), RiscvError>;

    /// Reads the IDCODE of the target.
    fn read_idcode(&mut self) -> Result<u32, DebugProbeError>;

    /// Releases the reset line of the target.
    fn target_reset_deassert(&mut self) -> Result<(), DebugProbeError>;

    /// Performs one DMI access and waits for it, at most `timeout_ms` milliseconds.
    fn dmi_register_access_with_timeout(
        &mut self,
        address: u64,
        value: u32,
        op: DmiOperation,
        timeout_ms: u64,
    ) -> Result<u32, RiscvError>;

    /// Adds one DMI access to the batch.
    fn schedule_dmi_register_access(
        &mut self,
        address: u64,
        value: u32,
        op: DmiOperation,
    ) -> Result<DeferredResultIndex, DebugProbeError>;

    /// Performs the accesses of the batch, in the order in which they were scheduled.
    fn execute(&mut self) -> Result<Vec<CommandResult>, DebugProbeError>;
}

/// One thing that the library asked of the outside, with the answer it got.
#[allow(inconsistent_fields)]
pub enum Event {
    /// The error state of the transport was reset.
    Reset { outcome: Result<(), RiscvError> },
    /// The IDCODE was read.
    Idcode { outcome: Result<u32, DebugProbeError> },
    /// The reset line was released.
    ResetDeassert { outcome: Result<(), DebugProbeError> },
    /// An immediate DMI access.
    Access {
        address: u64,
        value: u32,
        op: DmiOperation,
        timeout_ms: u64,
        outcome: Result<u32, RiscvError>,
    },
    /// A DMI access was added to the batch.
    Schedule {
        address: u64,
        value: u32,
        op: DmiOperation,
        outcome: Result<DeferredResultIndex, DebugProbeError>,
    },
    /// The batch was executed.
    Execute { outcome: Result<Vec<CommandResult>, DebugProbeError> },
    /// The clock was read: the time since polling began, in nanoseconds.
    Elapsed { nanos: u128 },
}

/// `new` starts with all of `old`, in the same order.
pub open spec fn extends(new: Seq<Event>, old: Seq<Event>) -> bool {
    &&& old.len() <= new.len()
    &&& forall|i: int| 0 <= i < old.len() ==> new[i] == old[i]
}

/// A record that starts with all of another starts with all that the other
/// starts with.
pub broadcast proof fn lemma_extends_chain(a: Seq<Event>, b: Seq<Event>, c: Seq<Event>)
    requires
        #[trigger] extends(c, b),
        #[trigger] extends(b, a),
    ensures
        extends(c, a),
{
}

} // verus!
