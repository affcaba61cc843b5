//! What the library has found out about a debug module and keeps between
//! operations.

use crate::error::{DebugModuleVersion, RiscvBusAccess};
use std::collections::HashMap;
use vstd::prelude::*;

verus! {

/// Whether a core register can be read and written with an abstract command:
/// one bit for each direction.
#[derive(Debug, Clone, Copy, PartialEq, Eq)]
pub struct CoreRegisterAbstractCmdSupport(pub u8);

impl CoreRegisterAbstractCmdSupport {
    pub open spec fn spec_read() -> Self {
        CoreRegisterAbstractCmdSupport(1)
    }

    pub open spec fn spec_write() -> Self {
        CoreRegisterAbstractCmdSupport(2)
    }

    pub open spec fn spec_both() -> Self {
        CoreRegisterAbstractCmdSupport(3)
    }

    /// The register can be read.
    #[verifier::when_used_as_spec(spec_read)]
    pub fn read() -> (r: Self)
        ensures
            r == Self::spec_read(),
    {
        CoreRegisterAbstractCmdSupport(1)
    }

    /// The register can be written.
    #[verifier::when_used_as_spec(spec_write)]
    pub fn write() -> (r: Self)
        ensures
            r == Self::spec_write(),
    {
        CoreRegisterAbstractCmdSupport(2)
    }

    /// The register can be read and written.
    #[verifier::when_used_as_spec(spec_both)]
    pub fn both() -> (r: Self)
        ensures
            r == Self::spec_both(),
    {
        CoreRegisterAbstractCmdSupport(3)
    }

    pub open spec fn spec_supports(&self, o: Self) -> bool {
        self.0 & o.0 == o.0
    }

    /// Whether every direction of `o` is supported.
    #[verifier::when_used_as_spec(spec_supports)]
    pub fn supports(&self, o: Self) -> (r: bool)
        ensures
            r == self.spec_supports(o),
    {
        self.0 & o.0 == o.0
    }

    /// The support without the directions of `o`.
    pub open spec fn without(self, o: Self) -> Self {
        CoreRegisterAbstractCmdSupport(self.0 & !o.0)
    }

    /// Takes the directions of `o` away.
    pub fn unset(&mut self, o: Self)
        ensures
            *final(self) == old(self).without(o),
    {
        self.0 = self.0 & !o.0;
    }
}

/// A way to access the memory of the target.
#[derive(Debug, Clone, Copy, PartialEq, Eq)]
pub enum MemoryAccessMethod {
    /// Through a short program in the program buffer
    ProgramBuffer,
    /// Through an abstract command; not implemented
    AbstractCommand,
    /// Through the system bus
    SystemBus,
}

/// The state of the interface as contracts see it.
pub struct Model {
    pub debug_version: DebugModuleVersion,
    pub progbuf_size: u8,
    /// What the program buffer holds as far as the library knows: 16 words.
    pub progbuf_cache: Seq<u32>,
    pub implicit_ebreak: bool,
    pub data_register_count: u8,
    pub nscratch: u8,
    pub supports_autoexec: bool,
    pub confstrptr: Option<u128>,
    pub hartsellen: u8,
    pub num_harts: u32,
    /// The access method that was found or chosen for a width, by the width's code.
    pub access: Map<u8, MemoryAccessMethod>,
    /// What is known of a register's support, by the register's number.
    pub support: Map<u16, CoreRegisterAbstractCmdSupport>,
}

impl Model {
    /// What holds of the state of every interface: the cache has a word for
    /// each program buffer register that the register map has room for.
    pub open spec fn wf(self) -> bool {
        self.progbuf_cache.len() == 16
    }

    /// What holds of the state once the interface has attached: the module is
    /// of the one version that is supported, there is at least one hart and
    /// no more than the hart selection can tell apart, the selection has at
    /// most 20 bits, and the sizes are within what their fields can hold.
    pub open spec fn attached(self) -> bool {
        &&& self.debug_version == DebugModuleVersion::Version0_13
        &&& self.num_harts >= 1
        &&& self.hartsellen <= 20
        &&& self.num_harts <= 1u32 << (self.hartsellen as u32)
        &&& self.progbuf_size <= 31
        &&& self.data_register_count <= 15
        &&& self.nscratch <= 15
    }

    /// The state before anything is known of the debug module.
    pub open spec fn initial() -> Model {
        Model {
            debug_version: DebugModuleVersion::NonConforming,
            progbuf_size: 0,
            progbuf_cache: Seq::new(16, |i: int| 0u32),
            implicit_ebreak: false,
            data_register_count: 1,
            nscratch: 0,
            supports_autoexec: false,
            confstrptr: None,
            hartsellen: 20,
            num_harts: 1,
            access: Map::empty(),
            support: Map::empty(),
        }
    }

    /// The method for accesses of a width: the program buffer unless another
    /// one was recorded.
    pub open spec fn method_for(self, width: RiscvBusAccess) -> MemoryAccessMethod {
        if self.access.contains_key(width.spec_code()) {
            self.access[width.spec_code()]
        } else {
            MemoryAccessMethod::ProgramBuffer
        }
    }

    /// The state once the method for a width was asked for: the answer is recorded.
    pub open spec fn with_method_asked(self, width: RiscvBusAccess) -> Model {
        Model { access: self.access.insert(width.spec_code(), self.method_for(width)), ..self }
    }

    /// The state once `method` was recorded for a width.
    pub open spec fn with_method(self, width: RiscvBusAccess, method: MemoryAccessMethod) -> Model {
        Model { access: self.access.insert(width.spec_code(), method), ..self }
    }

    /// What is known of a register: everything is supported until an abstract
    /// command showed otherwise.
    pub open spec fn support_of(self, regno: u16) -> CoreRegisterAbstractCmdSupport {
        if self.support.contains_key(regno) {
            self.support[regno]
        } else {
            CoreRegisterAbstractCmdSupport::spec_both()
        }
    }

    /// Whether a register may still support `rw`: it may until an abstract
    /// command showed otherwise.
    pub open spec fn supports(self, regno: u16, rw: CoreRegisterAbstractCmdSupport) -> bool {
        self.support.contains_key(regno) ==> self.support[regno].spec_supports(rw)
    }

    /// The state once a register was found not to support `rw`.
    pub open spec fn with_unsupported(
        self,
        regno: u16,
        rw: CoreRegisterAbstractCmdSupport,
    ) -> Model {
        Model { support: self.support.insert(regno, self.support_of(regno).without(rw)), ..self }
    }

    /// Whether the program buffer is known to start with `program`.
    pub open spec fn cache_holds(self, program: Seq<u32>) -> bool {
        program.len() <= self.progbuf_cache.len() && self.progbuf_cache.subrange(
            0,
            program.len() as int,
        ) == program
    }

    /// The state once `program` was written to the start of the program buffer.
    pub open spec fn with_cached(self, program: Seq<u32>) -> Model {
        Model {
            progbuf_cache: Seq::new(
                self.progbuf_cache.len(),
                |i: int|
                    if i < program.len() {
                        program[i]
                    } else {
                        self.progbuf_cache[i]
                    },
            ),
            ..self
        }
    }
}

/// What is known of a debug module, from attaching to it until the interface
/// is closed.
#[derive(Debug)]
pub struct RiscvCommunicationInterfaceState {
    /// The version of the debug specification
    debug_version: DebugModuleVersion,
    /// The size of the program buffer, in 32-bit words
    progbuf_size: u8,
    /// What was last written to the program buffer
    progbuf_cache: [u32; 16],
    /// There is an implicit `ebreak` after the program buffer.
    implicit_ebreak: bool,
    /// The number of data registers for abstract commands
    data_register_count: u8,
    nscratch: u8,
    supports_autoexec: bool,
    /// The address of the configuration string
    confstrptr: Option<u128>,
    /// The width of the hart selection
    hartsellen: u8,
    /// The number of harts
    num_harts: u32,
    memory_access_info: HashMap<u8, MemoryAccessMethod>,
    /// Whether a register can be read and written with an abstract command
    abstract_cmd_register_info: HashMap<u16, CoreRegisterAbstractCmdSupport>,
}

impl View for RiscvCommunicationInterfaceState {
    type V = Model;

    closed spec fn view(&self) -> Model {
        Model {
            debug_version: self.debug_version,
            progbuf_size: self.progbuf_size,
            progbuf_cache: self.progbuf_cache@,
            implicit_ebreak: self.implicit_ebreak,
            data_register_count: self.data_register_count,
            nscratch: self.nscratch,
            supports_autoexec: self.supports_autoexec,
            confstrptr: self.confstrptr,
            hartsellen: self.hartsellen,
            num_harts: self.num_harts,
            access: self.memory_access_info@,
            support: self.abstract_cmd_register_info@,
        }
    }
}

impl RiscvCommunicationInterfaceState {
    /// The state of an interface is always well formed.
    pub proof fn lemma_wf(&self)
        ensures
            self@.wf(),
    {
    }

    /// The state before anything is known of the debug module.
    pub fn new() -> (state: Self)
        ensures
            state@ == Model::initial(),
    {
        let state = RiscvCommunicationInterfaceState {
            // The smallest value; attaching finds the real one.
            progbuf_size: 0,
            progbuf_cache: [0u32; 16],
            debug_version: DebugModuleVersion::NonConforming,
            // No implicit ebreak until the module says so.
            implicit_ebreak: false,
            // The smallest value; attaching finds the real one.
            data_register_count: 1,
            nscratch: 0,
            supports_autoexec: false,
            confstrptr: None,
            // The largest value; attaching finds the real one.
            hartsellen: 20,
            // Hart 0 always exists.
            num_harts: 1,
            memory_access_info: HashMap::new(),
            abstract_cmd_register_info: HashMap::new(),
        };
        assert(state@.progbuf_cache =~= Model::initial().progbuf_cache);
        state
    }

    /// The access method for a width. The answer is recorded where none was.
    pub fn memory_access_method(&mut self, access_width: RiscvBusAccess) -> (method:
        MemoryAccessMethod)
        ensures
            method == old(self)@.method_for(access_width),
            final(self)@ == old(self)@.with_method_asked(access_width),
    {
        let code = access_width.code();
        let found = match self.memory_access_info.get(&code) {
            Some(method) => *method,
            None => MemoryAccessMethod::ProgramBuffer,
        };
        self.memory_access_info.insert(code, found);
        found
    }

    /// Records the access method for a width.
    pub fn set_memory_access_method(
        &mut self,
        access_width: RiscvBusAccess,
        method: MemoryAccessMethod,
    )
        ensures
            final(self)@ == old(self)@.with_method(access_width, method),
    {
        self.memory_access_info.insert(access_width.code(), method);
    }

    /// The version of the debug specification that the module conforms to.
    pub fn debug_version(&self) -> (r: DebugModuleVersion)
        ensures
            r == self@.debug_version,
    {
        self.debug_version
    }

    /// Records the value that was found.
    pub fn set_debug_version(&mut self, value: DebugModuleVersion)
        ensures
            final(self)@ == (Model { debug_version: value, ..old(self)@ }),
    {
        self.debug_version = value;
    }

    /// The size of the program buffer, in 32-bit words.
    pub fn progbuf_size(&self) -> (r: u8)
        ensures
            r == self@.progbuf_size,
    {
        self.progbuf_size
    }

    /// Records the value that was found.
    pub fn set_progbuf_size(&mut self, value: u8)
        ensures
            final(self)@ == (Model { progbuf_size: value, ..old(self)@ }),
    {
        self.progbuf_size = value;
    }

    /// Whether an implicit `ebreak` follows the program buffer.
    pub fn implicit_ebreak(&self) -> (r: bool)
        ensures
            r == self@.implicit_ebreak,
    {
        self.implicit_ebreak
    }

    /// Records the value that was found.
    pub fn set_implicit_ebreak(&mut self, value: bool)
        ensures
            final(self)@ == (Model { implicit_ebreak: value, ..old(self)@ }),
    {
        self.implicit_ebreak = value;
    }

    /// The number of data registers for abstract commands.
    pub fn data_register_count(&self) -> (r: u8)
        ensures
            r == self@.data_register_count,
    {
        self.data_register_count
    }

    /// Records the value that was found.
    pub fn set_data_register_count(&mut self, value: u8)
        ensures
            final(self)@ == (Model { data_register_count: value, ..old(self)@ }),
    {
        self.data_register_count = value;
    }

    /// The number of `dscratch` registers.
    pub fn nscratch(&self) -> (r: u8)
        ensures
            r == self@.nscratch,
    {
        self.nscratch
    }

    /// Records the value that was found.
    pub fn set_nscratch(&mut self, value: u8)
        ensures
            final(self)@ == (Model { nscratch: value, ..old(self)@ }),
    {
        self.nscratch = value;
    }

    /// Whether `abstractauto` keeps what is written to it.
    pub fn supports_autoexec(&self) -> (r: bool)
        ensures
            r == self@.supports_autoexec,
    {
        self.supports_autoexec
    }

    /// Records the value that was found.
    pub fn set_supports_autoexec(&mut self, value: bool)
        ensures
            final(self)@ == (Model { supports_autoexec: value, ..old(self)@ }),
    {
        self.supports_autoexec = value;
    }

    /// The address of the configuration string, if the module gives one.
    pub fn confstrptr(&self) -> (r: Option<u128>)
        ensures
            r == self@.confstrptr,
    {
        self.confstrptr
    }

    /// Records the value that was found.
    pub fn set_confstrptr(&mut self, value: Option<u128>)
        ensures
            final(self)@ == (Model { confstrptr: value, ..old(self)@ }),
    {
        self.confstrptr = value;
    }

    /// The number of bits of the hart selection that the module implements.
    pub fn hartsellen(&self) -> (r: u8)
        ensures
            r == self@.hartsellen,
    {
        self.hartsellen
    }

    /// Records the value that was found.
    pub fn set_hartsellen(&mut self, value: u8)
        ensures
            final(self)@ == (Model { hartsellen: value, ..old(self)@ }),
    {
        self.hartsellen = value;
    }

    /// The number of harts.
    pub fn num_harts(&self) -> (r: u32)
        ensures
            r == self@.num_harts,
    {
        self.num_harts
    }

    /// Records the value that was found.
    pub fn set_num_harts(&mut self, value: u32)
        ensures
            final(self)@ == (Model { num_harts: value, ..old(self)@ }),
    {
        self.num_harts = value;
    }

    /// What the program buffer holds as far as the library knows.
    pub fn progbuf_cache(&self) -> (r: [u32; 16])
        ensures
            r@ == self@.progbuf_cache,
    {
        self.progbuf_cache
    }

    /// The access method that is recorded for a width, or the program buffer
    /// where none is; nothing is recorded by asking so.
    pub fn recorded_access_method(
        &self,
        access_width: RiscvBusAccess,
    ) -> (method: MemoryAccessMethod)
        ensures
            method == self@.method_for(access_width),
    {
        match self.memory_access_info.get(&access_width.code()) {
            Some(method) => *method,
            None => MemoryAccessMethod::ProgramBuffer,
        }
    }

    /// Whether `regno` may still support `rw`.
    pub fn supports(&self, regno: u16, rw: CoreRegisterAbstractCmdSupport) -> (r: bool)
        ensures
            r == self@.supports(regno, rw),
    {
        match self.abstract_cmd_register_info.get(&regno) {
            Some(status) => status.supports(rw),
            None => true,
        }
    }

    /// Records that `regno` does not support `rw`.
    pub fn set_unsupported(&mut self, regno: u16, rw: CoreRegisterAbstractCmdSupport)
        ensures
            final(self)@ == old(self)@.with_unsupported(regno, rw),
    {
        let mut entry = match self.abstract_cmd_register_info.get(&regno) {
            Some(status) => *status,
            None => CoreRegisterAbstractCmdSupport::both(),
        };
        entry.unset(rw);
        self.abstract_cmd_register_info.insert(regno, entry);
    }

    /// Whether the program buffer is known to start with `program`.
    pub fn cache_holds(&self, program: &[u32]) -> (r: bool)
        ensures
            r == self@.cache_holds(program@),
    {
        if program.len() > 16 {
            return false;
        }
        let mut i: usize = 0;
        while i < program.len()
            invariant
                i <= program.len() <= 16,
                forall|j: int| 0 <= j < i ==> self.progbuf_cache@[j] == program@[j],
            decreases program.len() - i,
        {
            if self.progbuf_cache[i] != program[i] {
                assert(self@.progbuf_cache.subrange(0, program@.len() as int)[i as int]
                    != program@[i as int]);
                return false;
            }
            i = i + 1;
        }
        assert(self@.progbuf_cache.subrange(0, program@.len() as int) =~= program@);
        true
    }

    /// Records that `program` was written to the start of the program buffer.
    pub fn cache_program(&mut self, program: &[u32])
        requires
            program@.len() <= 16,
        ensures
            final(self)@ == old(self)@.with_cached(program@),
    {
        let mut i: usize = 0;
        while i < program.len()
            invariant
                i <= program.len() <= 16,
                self.progbuf_cache@.len() == 16,
                forall|j: int| 0 <= j < i ==> self.progbuf_cache@[j] == program@[j],
                forall|j: int| i <= j < 16 ==>
                    self.progbuf_cache@[j] == old(self).progbuf_cache@[j],
                self.debug_version == old(self).debug_version,
                self.progbuf_size == old(self).progbuf_size,
                self.implicit_ebreak == old(self).implicit_ebreak,
                self.data_register_count == old(self).data_register_count,
                self.nscratch == old(self).nscratch,
                self.supports_autoexec == old(self).supports_autoexec,
                self.confstrptr == old(self).confstrptr,
                self.hartsellen == old(self).hartsellen,
                self.num_harts == old(self).num_harts,
                self.memory_access_info == old(self).memory_access_info,
                self.abstract_cmd_register_info == old(self).abstract_cmd_register_info,
            decreases program.len() - i,
        {
            self.progbuf_cache[i] = program[i];
            i = i + 1;
        }
        assert(self@.progbuf_cache =~= old(self)@.with_cached(program@).progbuf_cache);
    }
}

impl Default for RiscvCommunicationInterfaceState {
    fn default() -> (state: Self)
        ensures
            state@ == Model::initial(),
    {
        Self::new()
    }
}

} // verus!
