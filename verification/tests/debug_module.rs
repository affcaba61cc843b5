use riscv_dm::assembly::EBREAK;
use riscv_dm::communication_interface::RiscvCommunicationInterface;
use riscv_dm::cores::RegisterId;
use riscv_dm::dtm::{CommandResult, DeferredResultIndex, DmiOperation, Dtm};
use riscv_dm::error::{
    AbstractCommandErrorKind, DebugModuleVersion, DebugProbeError, DmiOperationStatus, Error,
    RiscvBusAccess, RiscvError,
};
use riscv_dm::memory::MemoryInterface;
use riscv_dm::program_buffer::{S0, S1};
use riscv_dm::registers::LargeRegister;
use riscv_dm::state::{CoreRegisterAbstractCmdSupport, MemoryAccessMethod};
use std::collections::HashMap;
use std::time::Instant;

const DATA0: u64 = 0x04;
const DMCONTROL: u64 = 0x10;
const DMSTATUS: u64 = 0x11;
const HARTINFO: u64 = 0x12;
const ABSTRACTCS: u64 = 0x16;
const COMMAND: u64 = 0x17;
const ABSTRACTAUTO: u64 = 0x18;
const CONFSTRPTR0: u64 = 0x19;
const PROGBUF0: u64 = 0x20;
const SBCS: u64 = 0x38;
const SBADDRESS0: u64 = 0x39;
const SBDATA0: u64 = 0x3c;
const SBDATA1: u64 = 0x3d;

/// One access that the simulated debug module has seen.
#[derive(Debug, Clone, Copy, PartialEq, Eq)]
struct Seen {
    address: u64,
    value: u32,
    op: DmiOperation,
}

fn seen_read(address: u64) -> Seen {
    Seen { address, value: 0, op: DmiOperation::Read }
}

fn seen_noop() -> Seen {
    Seen { address: 0, value: 0, op: DmiOperation::NoOp }
}

fn seen_write(address: u64, value: u32) -> Seen {
    Seen { address, value, op: DmiOperation::Write }
}

/// A debug module with one or more RV32 harts behind it, as far as the
/// library drives one.
struct SimDm {
    seen: Vec<Seen>,
    timeouts: Vec<u64>,
    batch: Vec<Seen>,
    batches: usize,
    pending: u32,
    version: u32,
    impebreak: bool,
    confstrptr: Option<[u32; 4]>,
    hart_count: u32,
    hartsel_bits: u32,
    dmcontrol: u32,
    progbuf_size: u32,
    data_count: u32,
    nscratch: u32,
    cmderr: u32,
    busy_forever: bool,
    autoexec: bool,
    abstractauto: u32,
    sbversion: u32,
    sb_widths: u32,
    sb_config: u32,
    sberror: u32,
    sbaddress: u32,
    sbdata: [u32; 4],
    data: [u32; 12],
    progbuf: [u32; 16],
    regs: [u32; 32],
    csrs: HashMap<u16, u32>,
    memory: HashMap<u32, u8>,
    bad_address: Option<u32>,
    commands: Vec<u32>,
    fail_access_at: Option<usize>,
    fail_with_status: bool,
    fail_schedule_at: Option<usize>,
    fail_execute: bool,
    short_batch: bool,
    idcode: u32,
    resets: usize,
    deasserts: usize,
}

impl SimDm {
    fn new() -> SimDm {
        SimDm {
            seen: Vec::new(),
            timeouts: Vec::new(),
            batch: Vec::new(),
            batches: 0,
            pending: 0,
            version: 2,
            impebreak: false,
            confstrptr: None,
            hart_count: 1,
            hartsel_bits: 0x3,
            dmcontrol: 0,
            progbuf_size: 8,
            data_count: 2,
            nscratch: 1,
            cmderr: 0,
            busy_forever: false,
            autoexec: true,
            abstractauto: 0,
            sbversion: 1,
            sb_widths: 0b00111,
            sb_config: 0,
            sberror: 0,
            sbaddress: 0,
            sbdata: [0; 4],
            data: [0; 12],
            progbuf: [0; 16],
            regs: [0; 32],
            csrs: HashMap::new(),
            memory: HashMap::new(),
            bad_address: None,
            commands: Vec::new(),
            fail_access_at: None,
            fail_with_status: false,
            fail_schedule_at: None,
            fail_execute: false,
            short_batch: false,
            idcode: 0x1000_563d,
            resets: 0,
            deasserts: 0,
        }
    }

    /// A module that offers the program buffer alone.
    fn without_system_bus() -> SimDm {
        let mut dm = SimDm::new();
        dm.sbversion = 0;
        dm.sb_widths = 0;
        dm
    }

    fn load(&self, address: u32, bytes: u32) -> u32 {
        let mut value: u32 = 0;
        for i in 0..bytes {
            let byte = *self.memory.get(&address.wrapping_add(i)).unwrap_or(&0);
            value |= (byte as u32) << (8 * i);
        }
        value
    }

    fn store(&mut self, address: u32, bytes: u32, value: u32) {
        for i in 0..bytes {
            self.memory.insert(address.wrapping_add(i), (value >> (8 * i)) as u8);
        }
    }

    fn store_word(&mut self, address: u32, value: u32) {
        self.store(address, 4, value);
    }

    fn is_bad(&self, address: u32) -> bool {
        self.bad_address == Some(address)
    }

    fn selected_hart(&self) -> u32 {
        let lo = (self.dmcontrol >> 16) & 0x3ff;
        let hi = (self.dmcontrol >> 6) & 0x3ff;
        (hi << 10) | lo
    }

    fn bus_width(&self) -> Option<u32> {
        let code = (self.sb_config >> 17) & 0x7;
        if code <= 4 && (self.sb_widths >> code) & 1 == 1 {
            Some(1 << code)
        } else {
            None
        }
    }

    fn bus_read(&mut self) {
        if self.sberror != 0 {
            return;
        }
        let Some(width) = self.bus_width() else {
            self.sberror = 4;
            return;
        };
        if self.is_bad(self.sbaddress) {
            self.sberror = 2;
            return;
        }
        for slot in 0..4 {
            if 4 * slot < width {
                let bytes = if width < 4 { width } else { 4 };
                self.sbdata[slot as usize] = self.load(self.sbaddress.wrapping_add(4 * slot), bytes);
            }
        }
        if (self.sb_config >> 16) & 1 == 1 {
            self.sbaddress = self.sbaddress.wrapping_add(width);
        }
    }

    fn bus_write(&mut self) {
        if self.sberror != 0 {
            return;
        }
        let Some(width) = self.bus_width() else {
            self.sberror = 4;
            return;
        };
        if self.is_bad(self.sbaddress) {
            self.sberror = 2;
            return;
        }
        for slot in 0..4 {
            if 4 * slot < width {
                let bytes = if width < 4 { width } else { 4 };
                self.store(self.sbaddress.wrapping_add(4 * slot), bytes, self.sbdata[slot as usize]);
            }
        }
        if (self.sb_config >> 16) & 1 == 1 {
            self.sbaddress = self.sbaddress.wrapping_add(width);
        }
    }

    /// Runs the program buffer until an ebreak; returns whether it got there.
    fn run_program(&mut self) -> bool {
        let mut pc: usize = 0;
        loop {
            if pc >= self.progbuf_size as usize {
                return self.impebreak;
            }
            let word = self.progbuf[pc];
            pc += 1;
            if word == EBREAK {
                return true;
            }
            let opcode = word & 0x7f;
            let rd = ((word >> 7) & 0x1f) as usize;
            let funct3 = (word >> 12) & 0x7;
            let rs1 = ((word >> 15) & 0x1f) as usize;
            let rs2 = ((word >> 20) & 0x1f) as usize;
            let imm_i = ((word as i32) >> 20) as u32;
            match opcode {
                0x03 => {
                    let address = self.regs[rs1].wrapping_add(imm_i);
                    if funct3 > 2 || self.is_bad(address) {
                        return false;
                    }
                    let bytes = 1 << funct3;
                    let raw = self.load(address, bytes);
                    let value = match funct3 {
                        0 => raw as u8 as i8 as i32 as u32,
                        1 => raw as u16 as i16 as i32 as u32,
                        _ => raw,
                    };
                    if rd != 0 {
                        self.regs[rd] = value;
                    }
                }
                0x23 => {
                    let imm = (((word as i32) >> 25) << 5) as u32 | ((word >> 7) & 0x1f);
                    let address = self.regs[rs1].wrapping_add(imm);
                    if funct3 > 2 || self.is_bad(address) {
                        return false;
                    }
                    let value = self.regs[rs2];
                    self.store(address, 1 << funct3, value);
                }
                0x13 => {
                    if funct3 != 0 {
                        return false;
                    }
                    if rd != 0 {
                        self.regs[rd] = self.regs[rs1].wrapping_add(imm_i);
                    }
                }
                0x73 => {
                    let csr = (word >> 20) as u16;
                    let Some(old) = self.csrs.get(&csr).copied() else {
                        return false;
                    };
                    match funct3 {
                        1 => {
                            self.csrs.insert(csr, self.regs[rs1]);
                        }
                        2 => {
                            self.csrs.insert(csr, old | self.regs[rs1]);
                        }
                        _ => return false,
                    }
                    if rd != 0 {
                        self.regs[rd] = old;
                    }
                }
                _ => return false,
            }
        }
    }

    fn run_command(&mut self, command: u32) {
        self.commands.push(command);
        if self.cmderr != 0 {
            return;
        }
        if command >> 24 != 0 {
            self.cmderr = 2;
            return;
        }
        let size = (command >> 20) & 0x7;
        let postexec = (command >> 18) & 1 == 1;
        let transfer = (command >> 17) & 1 == 1;
        let write = (command >> 16) & 1 == 1;
        let regno = command & 0xffff;
        if transfer {
            if size != 2 || !(0x1000..0x1020).contains(&regno) {
                self.cmderr = 2;
                return;
            }
            let index = (regno - 0x1000) as usize;
            if write {
                if index != 0 {
                    self.regs[index] = self.data[0];
                }
            } else {
                self.data[0] = self.regs[index];
            }
        }
        if postexec && !self.run_program() {
            self.cmderr = 3;
        }
    }

    fn read_register(&mut self, address: u64) -> u32 {
        match address {
            0x04..=0x0f => self.data[(address - 0x04) as usize],
            DMCONTROL => self.dmcontrol,
            DMSTATUS => {
                let exists = self.selected_hart() < self.hart_count;
                let mut value = self.version & 0xf;
                if self.confstrptr.is_some() {
                    value |= 1 << 4;
                }
                value |= 1 << 7;
                if exists {
                    value |= (1 << 8) | (1 << 9);
                } else {
                    value |= (1 << 14) | (1 << 15);
                }
                if self.impebreak {
                    value |= 1 << 22;
                }
                value
            }
            HARTINFO => self.nscratch << 20,
            ABSTRACTCS => {
                (self.progbuf_size << 24)
                    | ((self.busy_forever as u32) << 12)
                    | (self.cmderr << 8)
                    | self.data_count
            }
            ABSTRACTAUTO => self.abstractauto,
            0x19..=0x1c => self.confstrptr.map_or(0, |words| words[(address - 0x19) as usize]),
            0x20..=0x2f => self.progbuf[(address - 0x20) as usize],
            SBCS => {
                (self.sbversion << 29) | self.sb_config | (self.sberror << 12) | (32 << 5) | self.sb_widths
            }
            SBADDRESS0 => self.sbaddress,
            SBDATA0 => {
                let value = self.sbdata[0];
                if (self.sb_config >> 15) & 1 == 1 {
                    self.bus_read();
                }
                value
            }
            0x3d..=0x3f => self.sbdata[(address - 0x3c) as usize],
            _ => 0,
        }
    }

    fn write_register(&mut self, address: u64, value: u32) {
        match address {
            0x04..=0x0f => self.data[(address - 0x04) as usize] = value,
            DMCONTROL => {
                let lo = (value >> 16) & 0x3ff;
                let hi = (value >> 6) & 0x3ff;
                let hartsel = ((hi << 10) | lo) & self.hartsel_bits;
                self.dmcontrol =
                    (value & 1) | ((hartsel & 0x3ff) << 16) | (((hartsel >> 10) & 0x3ff) << 6);
            }
            ABSTRACTCS => self.cmderr &= !((value >> 8) & 0x7),
            COMMAND => self.run_command(value),
            ABSTRACTAUTO => {
                if self.autoexec {
                    let progbuf_bits = (1u32 << self.progbuf_size) - 1;
                    let data_bits = (1u32 << self.data_count) - 1;
                    self.abstractauto = value & ((progbuf_bits << 16) | data_bits);
                }
            }
            0x20..=0x2f => self.progbuf[(address - 0x20) as usize] = value,
            SBCS => {
                self.sb_config = value & ((1 << 20) | (0x7 << 17) | (1 << 16) | (1 << 15));
                self.sberror &= !((value >> 12) & 0x7);
            }
            SBADDRESS0 => {
                self.sbaddress = value;
                if (self.sb_config >> 20) & 1 == 1 {
                    self.bus_read();
                }
            }
            SBDATA0 => {
                self.sbdata[0] = value;
                self.bus_write();
            }
            0x3d..=0x3f => self.sbdata[(address - 0x3c) as usize] = value,
            _ => {}
        }
    }

    fn perform(&mut self, access: Seen) -> u32 {
        match access.op {
            DmiOperation::NoOp => self.pending,
            DmiOperation::Read => {
                let before = self.pending;
                self.pending = self.read_register(access.address);
                before
            }
            DmiOperation::Write => {
                self.write_register(access.address, access.value);
                0
            }
        }
    }

    fn writes_to(&self, address: u64) -> Vec<u32> {
        self.seen
            .iter()
            .filter(|s| s.op == DmiOperation::Write && s.address == address)
            .map(|s| s.value)
            .collect()
    }

    fn progbuf_writes(&self) -> usize {
        self.seen
            .iter()
            .filter(|s| s.op == DmiOperation::Write && (0x20..=0x2f).contains(&s.address))
            .count()
    }
}

impl Dtm for SimDm {
    fn reset(&mut self) -> Result<(), RiscvError> {
        self.resets += 1;
        Ok(())
    }

    fn read_idcode(&mut self) -> Result<u32, DebugProbeError> {
        Ok(self.idcode)
    }

    fn target_reset_deassert(&mut self) -> Result<(), DebugProbeError> {
        self.deasserts += 1;
        Ok(())
    }

    fn dmi_register_access_with_timeout(
        &mut self,
        address: u64,
        value: u32,
        op: DmiOperation,
        timeout_ms: u64,
    ) -> Result<u32, RiscvError> {
        let access = Seen { address, value, op };
        if self.fail_access_at == Some(self.seen.len()) {
            self.seen.push(access);
            self.timeouts.push(timeout_ms);
            if self.fail_with_status {
                return Err(RiscvError::DmiTransfer(DmiOperationStatus::OperationFailed));
            }
            return Err(RiscvError::DebugProbe(DebugProbeError::ProbeSpecific(7)));
        }
        self.seen.push(access);
        self.timeouts.push(timeout_ms);
        Ok(self.perform(access))
    }

    fn schedule_dmi_register_access(
        &mut self,
        address: u64,
        value: u32,
        op: DmiOperation,
    ) -> Result<DeferredResultIndex, DebugProbeError> {
        if self.fail_schedule_at == Some(self.batch.len()) {
            return Err(DebugProbeError::ProbeSpecific(8));
        }
        self.batch.push(Seen { address, value, op });
        Ok(self.batch.len() - 1)
    }

    fn execute(&mut self) -> Result<Vec<CommandResult>, DebugProbeError> {
        self.batches += 1;
        if self.fail_execute {
            self.batch.clear();
            return Err(DebugProbeError::Timeout);
        }
        let batch: Vec<Seen> = self.batch.drain(..).collect();
        let mut results = Vec::new();
        for access in batch {
            self.seen.push(access);
            let value = self.perform(access);
            results.push(CommandResult::U32(value));
        }
        if self.short_batch {
            results.clear();
        }
        Ok(results)
    }
}

fn attach(dm: SimDm) -> RiscvCommunicationInterface<SimDm> {
    match RiscvCommunicationInterface::new(dm) {
        Ok(interface) => interface,
        Err((_, e)) => panic!("attaching failed: {:?}", e),
    }
}

/// Attaches and forgets what attaching did to the record of the module.
fn attached(dm: SimDm) -> RiscvCommunicationInterface<SimDm> {
    let mut interface = attach(dm);
    interface.dtm.seen.clear();
    interface.dtm.timeouts.clear();
    interface.dtm.commands.clear();
    interface
}

fn transfer(regno: u16, write: bool, postexec: bool) -> u32 {
    (2 << 20) | ((postexec as u32) << 18) | (1 << 17) | ((write as u32) << 16) | regno as u32
}

#[test]
fn attach_finds_what_the_module_offers() {
    let mut dm = SimDm::new();
    dm.impebreak = true;
    dm.sb_widths = 0b00101;
    let interface = attach(dm);
    assert_eq!(interface.state.debug_version(), DebugModuleVersion::Version0_13);
    assert!(interface.state.implicit_ebreak());
    assert_eq!(interface.state.progbuf_size(), 8);
    assert_eq!(interface.state.data_register_count(), 2);
    assert_eq!(interface.state.nscratch(), 1);
    assert_eq!(interface.state.confstrptr(), None);
    assert_eq!(
        interface.state.recorded_access_method(RiscvBusAccess::A8),
        MemoryAccessMethod::SystemBus
    );
    assert_eq!(
        interface.state.recorded_access_method(RiscvBusAccess::A32),
        MemoryAccessMethod::SystemBus
    );
    assert_eq!(
        interface.state.recorded_access_method(RiscvBusAccess::A16),
        MemoryAccessMethod::ProgramBuffer
    );
    assert_eq!(
        interface.state.recorded_access_method(RiscvBusAccess::A64),
        MemoryAccessMethod::ProgramBuffer
    );
    assert_eq!(
        interface.state.recorded_access_method(RiscvBusAccess::A128),
        MemoryAccessMethod::ProgramBuffer
    );
    assert_eq!(interface.dtm.resets, 1);
}

#[test]
fn attach_establishes_its_invariants() {
    let interface = attach(SimDm::new());
    assert_eq!(interface.state.debug_version(), DebugModuleVersion::Version0_13);
    assert!(interface.state.num_harts() >= 1);
    assert!(interface.state.progbuf_size() <= 16);
    assert!(interface.state.hartsellen() <= 20);
    assert!(interface.state.num_harts() <= 1 << interface.state.hartsellen());
}

#[test]
fn attach_makes_its_accesses_in_order() {
    let interface = attach(SimDm::new());
    let seen = &interface.dtm.seen;
    let expected = vec![
        seen_read(DMSTATUS),
        seen_noop(),
        seen_write(DMCONTROL, 1),
        seen_write(DMCONTROL, 0x03ff_ffc1),
        seen_read(DMCONTROL),
        seen_noop(),
        // hartsel keeps two bits; three harts are tried and the first of them does not exist
        seen_write(DMCONTROL, 0x0001_0001),
        seen_read(DMSTATUS),
        seen_noop(),
        seen_write(DMCONTROL, 1),
        seen_read(ABSTRACTCS),
        seen_noop(),
        seen_read(HARTINFO),
        seen_noop(),
        seen_write(ABSTRACTAUTO, 0x00ff_0003),
        seen_read(ABSTRACTAUTO),
        seen_noop(),
        seen_write(ABSTRACTAUTO, 0),
        seen_read(SBCS),
        seen_noop(),
    ];
    assert_eq!(seen, &expected);
    assert!(interface.dtm.timeouts.iter().all(|t| *t == 5000));
}

#[test]
fn attach_counts_the_harts() {
    let mut dm = SimDm::new();
    dm.hart_count = 3;
    dm.hartsel_bits = 0x3;
    let interface = attach(dm);
    assert_eq!(interface.state.hartsellen(), 2);
    assert_eq!(interface.state.num_harts(), 3);
}

#[test]
fn attach_counts_harts_up_to_the_width_of_the_selection() {
    let mut dm = SimDm::new();
    dm.hart_count = 9;
    dm.hartsel_bits = 0x3;
    let interface = attach(dm);
    assert_eq!(interface.state.hartsellen(), 2);
    assert_eq!(interface.state.num_harts(), 4);
}

#[test]
fn attach_with_a_single_hart_and_no_selection_bits() {
    let mut dm = SimDm::new();
    dm.hartsel_bits = 0;
    let interface = attach(dm);
    assert_eq!(interface.state.hartsellen(), 0);
    assert_eq!(interface.state.num_harts(), 1);
}

#[test]
fn attach_uses_all_twenty_selection_bits() {
    let mut dm = SimDm::new();
    dm.hartsel_bits = 0xf_ffff;
    dm.hart_count = 5;
    let interface = attach(dm);
    assert_eq!(interface.state.hartsellen(), 20);
    assert_eq!(interface.state.num_harts(), 5);
}

#[test]
fn attach_refuses_another_version() {
    let mut dm = SimDm::new();
    dm.version = 1;
    match RiscvCommunicationInterface::new(dm) {
        Ok(_) => panic!("attached to a module of version 0.11"),
        Err((dm, e)) => {
            assert_eq!(
                e,
                DebugProbeError::Other(Box::new(RiscvError::UnsupportedDebugModuleVersion(
                    DebugModuleVersion::Version0_11
                )))
            );
            // nothing was asked of the module after dmstatus
            assert_eq!(dm.seen, vec![seen_read(DMSTATUS), seen_noop()]);
        }
    }
}

#[test]
fn attach_refuses_an_unknown_version() {
    let mut dm = SimDm::new();
    dm.version = 7;
    match RiscvCommunicationInterface::new(dm) {
        Ok(_) => panic!("attached to a module of an unknown version"),
        Err((_, e)) => assert_eq!(
            e,
            DebugProbeError::Other(Box::new(RiscvError::UnsupportedDebugModuleVersion(
                DebugModuleVersion::Unknown(7)
            )))
        ),
    }
}

#[test]
fn attach_hands_a_failure_of_the_transport_on() {
    let mut dm = SimDm::new();
    dm.fail_access_at = Some(3);
    match RiscvCommunicationInterface::new(dm) {
        Ok(_) => panic!("attached over a transport that fails"),
        Err((dm, e)) => {
            assert_eq!(
                e,
                DebugProbeError::Other(Box::new(RiscvError::DebugProbe(
                    DebugProbeError::ProbeSpecific(7)
                )))
            );
            assert_eq!(dm.seen.len(), 4);
        }
    }
}

#[test]
fn attach_reads_the_configuration_string_pointer() {
    let mut dm = SimDm::new();
    dm.confstrptr = Some([0x11, 0x22, 0x33, 0x44]);
    let interface = attach(dm);
    assert_eq!(
        interface.state.confstrptr(),
        Some((0x44u128 << 32) | (0x33u128 << 16) | (0x22u128 << 8) | 0x11u128)
    );
    let reads: Vec<u64> = interface
        .dtm
        .seen
        .iter()
        .filter(|s| s.op == DmiOperation::Read && (0x19..=0x1c).contains(&s.address))
        .map(|s| s.address)
        .collect();
    assert_eq!(reads, vec![CONFSTRPTR0, 0x1a, 0x1b, 0x1c]);
}

#[test]
fn attach_finds_autoexec() {
    let interface = attach(SimDm::new());
    assert!(interface.state.supports_autoexec());
    let mut dm = SimDm::new();
    dm.autoexec = false;
    let interface = attach(dm);
    assert!(!interface.state.supports_autoexec());
}

#[test]
fn attach_ignores_a_system_bus_of_another_version() {
    let mut dm = SimDm::new();
    dm.sbversion = 0;
    let interface = attach(dm);
    assert_eq!(
        interface.state.recorded_access_method(RiscvBusAccess::A32),
        MemoryAccessMethod::ProgramBuffer
    );
    assert_eq!(
        interface.state.recorded_access_method(RiscvBusAccess::A8),
        MemoryAccessMethod::ProgramBuffer
    );
}

#[test]
fn close_gives_the_transport_back() {
    let mut dm = SimDm::new();
    dm.idcode = 0x2000_0913;
    let interface = attach(dm);
    let dm = interface.close();
    assert_eq!(dm.idcode, 0x2000_0913);
    assert_eq!(dm.resets, 1);
}

#[test]
fn idcode_and_reset_line_go_to_the_transport() {
    let mut interface = attached(SimDm::new());
    assert_eq!(interface.read_idcode(), Ok(0x1000_563d));
    assert_eq!(interface.target_reset_deassert(), Ok(()));
    assert_eq!(interface.dtm.deasserts, 1);
    assert!(interface.dtm.seen.is_empty());
}

#[test]
fn a_register_is_read_with_a_read_and_a_noop() {
    let mut interface = attached(SimDm::new());
    interface.dtm.data[1] = 0x1234_5678;
    assert_eq!(interface.read_dm_register_untyped(0x05), Ok(0x1234_5678));
    assert_eq!(interface.dtm.seen, vec![seen_read(0x05), seen_noop()]);
    assert_eq!(interface.dtm.timeouts, vec![5000, 5000]);
}

#[test]
fn a_register_is_written_with_one_write() {
    let mut interface = attached(SimDm::new());
    assert_eq!(interface.write_dm_register_untyped(0x05, 0xabcd), Ok(()));
    assert_eq!(interface.dtm.seen, vec![seen_write(0x05, 0xabcd)]);
    assert_eq!(interface.dtm.data[1], 0xabcd);
}

#[test]
fn a_failing_read_ends_at_the_failure() {
    let mut interface = attached(SimDm::new());
    interface.dtm.fail_access_at = Some(0);
    assert_eq!(
        interface.read_dm_register_untyped(0x05),
        Err(RiscvError::DebugProbe(DebugProbeError::ProbeSpecific(7)))
    );
    assert_eq!(interface.dtm.seen, vec![seen_read(0x05)]);
}

#[test]
fn read_word_32_through_the_system_bus() {
    let mut dm = SimDm::new();
    dm.store_word(0x2000_0000, 0xdead_beef);
    let mut interface = attached(dm);
    assert_eq!(interface.read_word_32(0x2000_0000), Ok(0xdead_beef));
    assert_eq!(
        interface.dtm.seen,
        vec![
            seen_write(SBCS, (2 << 17) | (1 << 20)),
            seen_write(SBADDRESS0, 0x2000_0000),
            seen_read(SBDATA0),
            seen_noop(),
            seen_read(SBCS),
            seen_noop(),
        ]
    );
}

#[test]
fn read_word_8_through_the_system_bus() {
    let mut dm = SimDm::new();
    dm.store_word(0x2000_0000, 0xdead_beef);
    let mut interface = attached(dm);
    assert_eq!(interface.read_word_8(0x2000_0001), Ok(0xbe));
    assert_eq!(interface.dtm.seen[0], seen_write(SBCS, 1 << 20));
}

#[test]
fn a_system_bus_error_fails_the_read() {
    let mut dm = SimDm::new();
    dm.bad_address = Some(0x3000_0000);
    let mut interface = attached(dm);
    assert_eq!(
        interface.read_word_32(0x3000_0000),
        Err(Error::ArchitectureSpecific(Box::new(RiscvError::SystemBusAccess)))
    );
}

#[test]
fn a_system_bus_error_fails_the_write() {
    let mut dm = SimDm::new();
    dm.bad_address = Some(0x3000_0000);
    let mut interface = attached(dm);
    assert_eq!(
        interface.write_word_32(0x3000_0000, 1),
        Err(Error::ArchitectureSpecific(Box::new(RiscvError::SystemBusAccess)))
    );
}

#[test]
fn write_word_32_through_the_system_bus() {
    let mut interface = attached(SimDm::new());
    assert_eq!(interface.write_word_32(0x2000_0010, 0x0102_0304), Ok(()));
    assert_eq!(interface.dtm.load(0x2000_0010, 4), 0x0102_0304);
    assert_eq!(
        interface.dtm.seen,
        vec![
            seen_write(SBCS, (2 << 17) | (1 << 16)),
            seen_write(SBADDRESS0, 0x2000_0010),
            seen_write(SBDATA0, 0x0102_0304),
            seen_read(SBCS),
            seen_noop(),
        ]
    );
    assert_eq!(interface.dtm.batches, 1);
}

#[test]
fn word_32_round_trip_through_the_system_bus() {
    let mut interface = attached(SimDm::new());
    assert_eq!(interface.write_word_32(0x2000_0040, 0xcafe_f00d), Ok(()));
    assert_eq!(interface.read_word_32(0x2000_0040), Ok(0xcafe_f00d));
}

#[test]
fn word_32_round_trip_through_the_program_buffer() {
    let mut interface = attached(SimDm::without_system_bus());
    assert_eq!(interface.write_word_32(0x2000_0040, 0xcafe_f00d), Ok(()));
    assert_eq!(interface.read_word_32(0x2000_0040), Ok(0xcafe_f00d));
    assert_eq!(interface.dtm.load(0x2000_0040, 4), 0xcafe_f00d);
}

#[test]
fn access_by_abstract_command_fails_explicitly() {
    let mut interface = attached(SimDm::new());
    interface
        .state
        .set_memory_access_method(RiscvBusAccess::A32, MemoryAccessMethod::AbstractCommand);
    let not_implemented = Error::Probe(DebugProbeError::NotImplemented);
    assert_eq!(interface.write_word_32(0x2000_0040, 1), Err(Error::Probe(DebugProbeError::NotImplemented)));
    assert_eq!(interface.read_word_32(0x2000_0040), Err(Error::Probe(DebugProbeError::NotImplemented)));
    let mut words = [0u32; 2];
    assert_eq!(interface.read_32(0x2000_0040, &mut words), Err(Error::Probe(DebugProbeError::NotImplemented)));
    assert_eq!(interface.write_32(0x2000_0040, &words), Err(not_implemented));
    assert!(interface.dtm.seen.is_empty());
    // the other widths go their own way
    assert_eq!(interface.write_word_8(0x2000_0040, 9), Ok(()));
    assert_eq!(interface.read_word_8(0x2000_0040), Ok(9));
}

#[test]
fn word_64_round_trip_is_two_words_low_first() {
    let mut interface = attached(SimDm::new());
    assert_eq!(interface.write_word_64(0x2000_0100, 0x1122_3344_5566_7788), Ok(()));
    assert_eq!(interface.dtm.load(0x2000_0100, 4), 0x5566_7788);
    assert_eq!(interface.dtm.load(0x2000_0104, 4), 0x1122_3344);
    assert_eq!(interface.dtm.writes_to(SBADDRESS0), vec![0x2000_0100, 0x2000_0104]);
    assert_eq!(interface.dtm.writes_to(SBDATA0), vec![0x5566_7788, 0x1122_3344]);
    interface.dtm.seen.clear();
    assert_eq!(interface.read_word_64(0x2000_0100), Ok(0x1122_3344_5566_7788));
    assert_eq!(interface.dtm.writes_to(SBADDRESS0), vec![0x2000_0100, 0x2000_0104]);
    assert!(!interface.supports_native_64bit_access());
}

#[test]
fn word_64_round_trip_through_the_program_buffer() {
    let mut interface = attached(SimDm::without_system_bus());
    assert_eq!(interface.write_word_64(0x2000_0100, 0x1122_3344_5566_7788), Ok(()));
    assert_eq!(interface.dtm.load(0x2000_0100, 4), 0x5566_7788);
    assert_eq!(interface.dtm.load(0x2000_0104, 4), 0x1122_3344);
    assert_eq!(interface.read_word_64(0x2000_0100), Ok(0x1122_3344_5566_7788));
}

#[test]
fn words_64_are_read_and_written_eight_bytes_apart() {
    let mut interface = attached(SimDm::new());
    let values = [0x0102_0304_0506_0708u64, 0x1112_1314_1516_1718, 0x2122_2324_2526_2728];
    assert_eq!(interface.write_64(0x2000_0200, &values), Ok(()));
    assert_eq!(interface.dtm.load(0x2000_0208, 4), 0x1516_1718);
    assert_eq!(interface.dtm.load(0x2000_0214, 4), 0x2122_2324);
    let mut back = [0u64; 3];
    assert_eq!(interface.read_64(0x2000_0200, &mut back), Ok(()));
    assert_eq!(back, values);
}

#[test]
fn an_address_beyond_32_bits_is_refused_before_any_access() {
    let mut interface = attached(SimDm::new());
    let refused = || Error::AddressOutOfRange(0x1_0000_0000);
    assert_eq!(interface.read_word_32(0x1_0000_0000), Err(refused()));
    assert_eq!(interface.read_word_8(0x1_0000_0000), Err(refused()));
    assert_eq!(interface.read_word_64(0x1_0000_0000), Err(refused()));
    assert_eq!(interface.write_word_32(0x1_0000_0000, 0), Err(refused()));
    assert_eq!(interface.write_word_8(0x1_0000_0000, 0), Err(refused()));
    assert_eq!(interface.write_word_64(0x1_0000_0000, 0), Err(refused()));
    let mut words = [0u32; 1];
    let mut bytes = [0u8; 1];
    let mut doubles = [0u64; 1];
    assert_eq!(interface.read_32(0x1_0000_0000, &mut words), Err(refused()));
    assert_eq!(interface.read_8(0x1_0000_0000, &mut bytes), Err(refused()));
    assert_eq!(interface.read_64(0x1_0000_0000, &mut doubles), Err(refused()));
    assert_eq!(interface.write_32(0x1_0000_0000, &words), Err(refused()));
    assert_eq!(interface.write_8(0x1_0000_0000, &bytes), Err(refused()));
    assert_eq!(interface.write_64(0x1_0000_0000, &doubles), Err(refused()));
    assert!(interface.dtm.seen.is_empty());
    assert_eq!(interface.dtm.batches, 0);
}

#[test]
fn a_64_bit_word_must_fit_below_the_end() {
    let mut interface = attached(SimDm::new());
    assert_eq!(
        interface.read_word_64(0xffff_fffc),
        Err(Error::AddressOutOfRange(0xffff_fffc))
    );
    assert_eq!(
        interface.write_word_64(0xffff_fff9, 1),
        Err(Error::AddressOutOfRange(0xffff_fff9))
    );
    let mut doubles = [0u64; 2];
    assert_eq!(
        interface.read_64(0xffff_fff8, &mut doubles),
        Err(Error::AddressOutOfRange(0xffff_fff8))
    );
    assert_eq!(
        interface.write_64(0xffff_fff8, &doubles),
        Err(Error::AddressOutOfRange(0xffff_fff8))
    );
    assert!(interface.dtm.seen.is_empty());
    // the last place that fits
    assert_eq!(interface.write_word_64(0xffff_fff8, 0x0102_0304_0506_0708), Ok(()));
    assert_eq!(interface.read_word_64(0xffff_fff8), Ok(0x0102_0304_0506_0708));
    assert_eq!(interface.read_word_32(0xffff_fffc), Ok(0x0102_0304));
}

#[test]
fn flush_does_nothing() {
    let mut interface = attached(SimDm::new());
    assert_eq!(interface.flush(), Ok(()));
    assert!(interface.dtm.seen.is_empty());
}

#[test]
fn write_word_8_through_the_program_buffer() {
    let mut dm = SimDm::new();
    dm.sb_widths = 0b00100;
    dm.regs[8] = 0x8888_0000;
    dm.regs[9] = 0x9999_0000;
    let mut interface = attached(dm);
    assert_eq!(interface.write_word_8(0x1000_0001, 0x42), Ok(()));
    let dm = &interface.dtm;
    assert_eq!(dm.load(0x1000_0001, 1), 0x42);
    // sb s1, 0(s0); ebreak
    assert_eq!(dm.progbuf[0], 0x0094_0023);
    assert_eq!(dm.progbuf[1], EBREAK);
    assert_eq!(dm.progbuf_writes(), 2);
    // the address for s0, the value, and what s0 and s1 held before
    assert_eq!(dm.writes_to(DATA0), vec![0x1000_0001, 0x42, 0x8888_0000, 0x9999_0000]);
    assert_eq!(
        dm.commands,
        vec![
            transfer(0x1008, false, false),
            transfer(0x1009, false, false),
            transfer(0x1008, true, false),
            transfer(0x1009, true, true),
            transfer(0x1008, true, false),
            transfer(0x1009, true, false),
        ]
    );
    assert_eq!(dm.commands[3], (2 << 20) | (1 << 18) | (1 << 17) | (1 << 16) | 0x1009);
    assert_eq!(dm.regs[8], 0x8888_0000);
    assert_eq!(dm.regs[9], 0x9999_0000);
}

#[test]
fn read_word_8_through_the_program_buffer_drops_the_sign() {
    let mut dm = SimDm::without_system_bus();
    dm.store_word(0x1000_0000, 0x0000_80f0);
    dm.regs[8] = 0x8888_0000;
    let mut interface = attached(dm);
    assert_eq!(interface.read_word_8(0x1000_0000), Ok(0xf0));
    assert_eq!(interface.read_word_8(0x1000_0001), Ok(0x80));
    // lb s0, 0(s0); ebreak
    assert_eq!(interface.dtm.progbuf[0], 0x0004_0403);
    assert_eq!(interface.dtm.progbuf[1], EBREAK);
    assert_eq!(interface.dtm.regs[8], 0x8888_0000);
}

#[test]
fn read_word_32_through_the_program_buffer() {
    let mut dm = SimDm::without_system_bus();
    dm.store_word(0x1000_0000, 0x0bad_cafe);
    dm.regs[8] = 0x8888_0000;
    let mut interface = attached(dm);
    assert_eq!(interface.read_word_32(0x1000_0000), Ok(0x0bad_cafe));
    let dm = &interface.dtm;
    // lw s0, 0(s0)
    assert_eq!(dm.progbuf[0], 0x0004_2403);
    assert_eq!(
        dm.commands,
        vec![
            transfer(0x1008, false, false),
            transfer(0x1008, true, true),
            transfer(0x1008, false, false),
            transfer(0x1008, true, false),
        ]
    );
    assert_eq!(dm.writes_to(DATA0), vec![0x1000_0000, 0x8888_0000]);
    assert_eq!(dm.regs[8], 0x8888_0000);
}

#[test]
fn a_failing_load_still_puts_s0_back() {
    let mut dm = SimDm::without_system_bus();
    dm.bad_address = Some(0x1000_0000);
    dm.regs[8] = 0x8888_0000;
    let mut interface = attached(dm);
    assert_eq!(
        interface.read_word_32(0x1000_0000),
        Err(Error::ArchitectureSpecific(Box::new(RiscvError::AbstractCommand(
            AbstractCommandErrorKind::Exception
        ))))
    );
    assert_eq!(interface.dtm.regs[8], 0x8888_0000);
    assert_eq!(interface.dtm.cmderr, 0);
    // and the interface goes on working
    assert_eq!(interface.read_word_32(0x1000_0004), Ok(0));
}

#[test]
fn a_failing_store_still_puts_s0_and_s1_back() {
    let mut dm = SimDm::without_system_bus();
    dm.bad_address = Some(0x1000_0000);
    dm.regs[8] = 0x8888_0000;
    dm.regs[9] = 0x9999_0000;
    let mut interface = attached(dm);
    assert_eq!(
        interface.write_word_32(0x1000_0000, 5),
        Err(Error::ArchitectureSpecific(Box::new(RiscvError::AbstractCommand(
            AbstractCommandErrorKind::Exception
        ))))
    );
    assert_eq!(interface.dtm.regs[8], 0x8888_0000);
    assert_eq!(interface.dtm.regs[9], 0x9999_0000);
}

#[test]
fn a_failing_store_of_many_is_a_failure_of_the_probe() {
    let mut dm = SimDm::without_system_bus();
    dm.bad_address = Some(0x1000_0004);
    dm.regs[8] = 0x8888_0000;
    dm.regs[9] = 0x9999_0000;
    let mut interface = attached(dm);
    assert_eq!(
        interface.write_32(0x1000_0000, &[1, 2, 3]),
        Err(Error::Probe(DebugProbeError::ArchitectureSpecific(Box::new(
            RiscvError::AbstractCommand(AbstractCommandErrorKind::Exception)
        ))))
    );
    assert_eq!(interface.dtm.load(0x1000_0000, 4), 1);
    assert_eq!(interface.dtm.regs[8], 0x8888_0000);
    assert_eq!(interface.dtm.regs[9], 0x9999_0000);
}

#[test]
fn read_32_of_four_words_through_the_program_buffer() {
    let mut dm = SimDm::without_system_bus();
    for i in 0..4 {
        dm.store_word(0x1000_0000 + 4 * i, 0xa0 + i);
    }
    dm.regs[8] = 0x8888_0000;
    dm.regs[9] = 0x9999_0000;
    let mut interface = attached(dm);
    let mut data = [0u32; 4];
    assert_eq!(interface.read_32(0x1000_0000, &mut data), Ok(()));
    assert_eq!(data, [0xa0, 0xa1, 0xa2, 0xa3]);
    let dm = &interface.dtm;
    // lw s1, 0(s0); addi s0, s0, 4; ebreak
    assert_eq!(&dm.progbuf[..3], &[0x0004_2483, 0x0044_0413, EBREAK]);
    assert_eq!(
        dm.commands,
        vec![
            transfer(0x1008, false, false),
            transfer(0x1009, false, false),
            // the address goes to s0 and the first word is loaded
            transfer(0x1008, true, true),
            // three words are taken from s1 while the next one is loaded
            transfer(0x1009, false, true),
            transfer(0x1009, false, true),
            transfer(0x1009, false, true),
            // the last word is only read
            transfer(0x1009, false, false),
            transfer(0x1008, true, false),
            transfer(0x1009, true, false),
        ]
    );
    // after the plain read of s1, the status is read once before the registers are put back
    let last_read = dm
        .seen
        .iter()
        .rposition(|s| *s == seen_write(COMMAND, transfer(0x1009, false, false)))
        .unwrap();
    let first_restore = dm
        .seen
        .iter()
        .position(|s| *s == seen_write(COMMAND, transfer(0x1008, true, false)))
        .unwrap();
    let between = &dm.seen[last_read + 1..first_restore];
    assert_eq!(between.iter().filter(|s| **s == seen_read(ABSTRACTCS)).count(), 3);
    assert_eq!(dm.regs[8], 0x8888_0000);
    assert_eq!(dm.regs[9], 0x9999_0000);
}

#[test]
fn read_8_and_write_8_through_the_program_buffer() {
    let mut dm = SimDm::without_system_bus();
    dm.regs[8] = 0x8888_0000;
    dm.regs[9] = 0x9999_0000;
    let mut interface = attached(dm);
    assert_eq!(interface.write_8(0x1000_0003, &[0xfe, 0x01, 0x80]), Ok(()));
    // sb s1, 0(s0); addi s0, s0, 1; ebreak
    assert_eq!(&interface.dtm.progbuf[..3], &[0x0094_0023, 0x0014_0413, EBREAK]);
    assert_eq!(interface.dtm.load(0x1000_0003, 1), 0xfe);
    assert_eq!(interface.dtm.load(0x1000_0005, 1), 0x80);
    let mut back = [0u8; 3];
    assert_eq!(interface.read_8(0x1000_0003, &mut back), Ok(()));
    assert_eq!(back, [0xfe, 0x01, 0x80]);
    assert_eq!(interface.dtm.regs[8], 0x8888_0000);
    assert_eq!(interface.dtm.regs[9], 0x9999_0000);
}

#[test]
fn read_32_of_one_word_through_the_program_buffer() {
    let mut dm = SimDm::without_system_bus();
    dm.store_word(0x1000_0000, 77);
    let mut interface = attached(dm);
    let mut data = [0u32; 1];
    assert_eq!(interface.read_32(0x1000_0000, &mut data), Ok(()));
    assert_eq!(data, [77]);
}

#[test]
fn reading_nothing_asks_nothing() {
    let mut interface = attached(SimDm::without_system_bus());
    let mut nothing: [u32; 0] = [];
    assert_eq!(interface.read_32(0x1000_0000, &mut nothing), Ok(()));
    assert!(interface.dtm.seen.is_empty());
    let mut interface = attached(SimDm::new());
    assert_eq!(interface.read_32(0x1000_0000, &mut nothing), Ok(()));
    assert!(interface.dtm.seen.is_empty());
    assert_eq!(interface.dtm.batches, 0);
}

#[test]
fn read_32_and_write_32_through_the_system_bus() {
    let mut interface = attached(SimDm::new());
    assert_eq!(interface.write_32(0x2000_0000, &[10, 20, 30, 40]), Ok(()));
    assert_eq!(interface.dtm.batches, 1);
    assert_eq!(
        interface.dtm.seen,
        vec![
            seen_write(SBCS, (2 << 17) | (1 << 16)),
            seen_write(SBADDRESS0, 0x2000_0000),
            seen_write(SBDATA0, 10),
            seen_write(SBDATA0, 20),
            seen_write(SBDATA0, 30),
            seen_write(SBDATA0, 40),
            seen_read(SBCS),
            seen_noop(),
        ]
    );
    interface.dtm.seen.clear();
    let mut back = [0u32; 4];
    assert_eq!(interface.read_32(0x2000_0000, &mut back), Ok(()));
    assert_eq!(back, [10, 20, 30, 40]);
    assert_eq!(interface.dtm.batches, 2);
    assert_eq!(
        interface.dtm.seen,
        vec![
            seen_write(SBCS, (2 << 17) | (1 << 20) | (1 << 16) | (1 << 15)),
            seen_write(SBADDRESS0, 0x2000_0000),
            seen_read(SBDATA0),
            seen_noop(),
            seen_read(SBDATA0),
            seen_noop(),
            seen_read(SBDATA0),
            seen_noop(),
            seen_write(SBCS, (2 << 17) | (1 << 20) | (1 << 15)),
            seen_read(SBDATA0),
            seen_noop(),
            seen_read(SBCS),
            seen_noop(),
        ]
    );
}

#[test]
fn read_8_through_the_system_bus() {
    let mut dm = SimDm::new();
    dm.store_word(0x2000_0000, 0x0403_0201);
    let mut interface = attached(dm);
    let mut back = [0u8; 3];
    assert_eq!(interface.read_8(0x2000_0001, &mut back), Ok(()));
    assert_eq!(back, [2, 3, 4]);
}

#[test]
fn a_system_bus_error_fails_the_read_of_many() {
    let mut dm = SimDm::new();
    dm.bad_address = Some(0x2000_0008);
    let mut interface = attached(dm);
    let mut back = [0u32; 4];
    assert_eq!(
        interface.read_32(0x2000_0000, &mut back),
        Err(Error::ArchitectureSpecific(Box::new(RiscvError::SystemBusAccess)))
    );
}

#[test]
fn a_batch_without_results_is_a_failure() {
    let mut interface = attached(SimDm::new());
    interface.dtm.short_batch = true;
    let batch_error = || Error::Probe(DebugProbeError::BatchError);
    assert_eq!(interface.write_word_32(0x2000_0000, 1), Err(batch_error()));
    let mut back = [7u32; 2];
    assert_eq!(interface.read_32(0x2000_0000, &mut back), Err(batch_error()));
    assert_eq!(back, [7, 7]);
}

#[test]
fn a_batch_that_fails_is_a_failure_of_the_probe() {
    let mut interface = attached(SimDm::new());
    interface.dtm.fail_execute = true;
    assert_eq!(
        interface.write_word_32(0x2000_0000, 1),
        Err(Error::Probe(DebugProbeError::Timeout))
    );
    interface.dtm.fail_execute = false;
    interface.dtm.fail_schedule_at = Some(2);
    assert_eq!(
        interface.write_32(0x2000_0000, &[1, 2]),
        Err(Error::Probe(DebugProbeError::ProbeSpecific(8)))
    );
}

#[test]
fn the_program_buffer_is_written_once() {
    let mut interface = attached(SimDm::new());
    let program = [0x0004_2403, 0x0044_0413];
    assert_eq!(interface.setup_program_buffer(&program), Ok(()));
    assert_eq!(
        interface.dtm.seen,
        vec![
            seen_write(PROGBUF0, 0x0004_2403),
            seen_write(PROGBUF0 + 1, 0x0044_0413),
            seen_write(PROGBUF0 + 2, EBREAK),
        ]
    );
    assert_eq!(&interface.state.progbuf_cache()[..2], &program);
    interface.dtm.seen.clear();
    assert_eq!(interface.setup_program_buffer(&program), Ok(()));
    assert!(interface.dtm.seen.is_empty());
    // a start of what the buffer holds is not written again either
    assert_eq!(interface.setup_program_buffer(&program[..1]), Ok(()));
    assert!(interface.dtm.seen.is_empty());
    // another program is
    assert_eq!(interface.setup_program_buffer(&[0x0004_2403, 0x0014_0413]), Ok(()));
    assert_eq!(interface.dtm.progbuf_writes(), 3);
}

#[test]
fn a_program_needs_room_for_its_ebreak() {
    let mut dm = SimDm::new();
    dm.progbuf_size = 2;
    let mut interface = attached(dm);
    assert_eq!(
        interface.setup_program_buffer(&[0x13, 0x13]),
        Err(RiscvError::ProgramBufferTooSmall)
    );
    assert!(interface.dtm.seen.is_empty());
    assert_eq!(interface.setup_program_buffer(&[0x13]), Ok(()));
    assert_eq!(
        interface.dtm.seen,
        vec![seen_write(PROGBUF0, 0x13), seen_write(PROGBUF0 + 1, EBREAK)]
    );
}

#[test]
fn an_implicit_ebreak_makes_room() {
    let mut dm = SimDm::new();
    dm.progbuf_size = 2;
    dm.impebreak = true;
    let mut interface = attached(dm);
    assert_eq!(
        interface.setup_program_buffer(&[0x13, 0x13, 0x13]),
        Err(RiscvError::ProgramBufferTooSmall)
    );
    // the program fills the buffer: no ebreak is written
    assert_eq!(interface.setup_program_buffer(&[0x13, 0x13]), Ok(()));
    assert_eq!(
        interface.dtm.seen,
        vec![seen_write(PROGBUF0, 0x13), seen_write(PROGBUF0 + 1, 0x13)]
    );
    interface.dtm.seen.clear();
    // the program leaves room: the ebreak is written
    assert_eq!(interface.setup_program_buffer(&[0x93]), Ok(()));
    assert_eq!(
        interface.dtm.seen,
        vec![seen_write(PROGBUF0, 0x93), seen_write(PROGBUF0 + 1, EBREAK)]
    );
}

#[test]
fn an_empty_program_buffer_takes_no_program() {
    let mut dm = SimDm::without_system_bus();
    dm.progbuf_size = 0;
    let mut interface = attached(dm);
    assert_eq!(interface.setup_program_buffer(&[0x13]), Err(RiscvError::ProgramBufferTooSmall));
    assert_eq!(
        interface.read_word_32(0x1000_0000),
        Err(Error::ArchitectureSpecific(Box::new(RiscvError::ProgramBufferTooSmall)))
    );
}

#[test]
fn there_are_sixteen_program_buffer_registers() {
    let mut interface = attached(SimDm::new());
    assert_eq!(interface.write_progbuf(15, 0x13), Ok(()));
    assert_eq!(interface.dtm.seen, vec![seen_write(0x2f, 0x13)]);
    assert_eq!(
        interface.write_progbuf(16, 0x13),
        Err(RiscvError::UnsupportedProgramBufferRegister(16))
    );
    assert_eq!(interface.dtm.seen.len(), 1);
}

#[test]
fn a_module_that_claims_a_larger_buffer_runs_out_of_registers() {
    let mut dm = SimDm::new();
    dm.progbuf_size = 20;
    let mut interface = attached(dm);
    assert_eq!(interface.state.progbuf_size(), 20);
    let program = [0x13u32; 17];
    assert_eq!(
        interface.setup_program_buffer(&program),
        Err(RiscvError::UnsupportedProgramBufferRegister(16))
    );
    assert_eq!(interface.dtm.progbuf_writes(), 16);
}

#[test]
fn an_abstract_command_is_prepared_issued_and_waited_for() {
    let mut interface = attached(SimDm::new());
    interface.dtm.regs[10] = 0x1234;
    assert_eq!(interface.execute_abstract_command(transfer(0x100a, false, false)), Ok(()));
    assert_eq!(
        interface.dtm.seen,
        vec![
            seen_write(DMCONTROL, 0x1000_0001),
            seen_read(ABSTRACTCS),
            seen_noop(),
            seen_write(COMMAND, transfer(0x100a, false, false)),
            seen_read(ABSTRACTCS),
            seen_noop(),
        ]
    );
    assert_eq!(interface.dtm.data[0], 0x1234);
}

#[test]
fn an_earlier_command_error_is_cleared_first() {
    let mut interface = attached(SimDm::new());
    interface.dtm.cmderr = 3;
    assert_eq!(interface.execute_abstract_command(transfer(0x100a, false, false)), Ok(()));
    assert_eq!(interface.dtm.seen[3], seen_write(ABSTRACTCS, 0x700));
    assert_eq!(interface.dtm.seen[4], seen_write(COMMAND, transfer(0x100a, false, false)));
}

#[test]
fn each_command_error_has_its_kind() {
    let mut interface = attached(SimDm::new());
    // a command of another type is not supported
    assert_eq!(
        interface.execute_abstract_command(2 << 24),
        Err(RiscvError::AbstractCommand(AbstractCommandErrorKind::NotSupported))
    );
    // a program that runs off the end of the buffer raises an exception
    interface.dtm.progbuf = [0x13; 16];
    assert_eq!(
        interface.execute_abstract_command(1 << 18),
        Err(RiscvError::AbstractCommand(AbstractCommandErrorKind::Exception))
    );
}

#[test]
fn a_command_that_stays_busy_times_out_after_five_seconds() {
    let mut interface = attached(SimDm::new());
    interface.dtm.busy_forever = true;
    let start = Instant::now();
    assert_eq!(
        interface.execute_abstract_command(transfer(0x1008, false, false)),
        Err(RiscvError::Timeout)
    );
    let waited = start.elapsed();
    assert!(waited.as_millis() >= 5000);
    assert!(waited.as_millis() < 6000);
}

#[test]
fn registers_are_read_and_written_with_abstract_commands() {
    let mut interface = attached(SimDm::new());
    interface.dtm.regs[8] = 0x5555;
    assert_eq!(interface.abstract_cmd_register_read(RegisterId(S0)), Ok(0x5555));
    assert_eq!(interface.dtm.commands, vec![transfer(0x1008, false, false)]);
    assert_eq!(interface.abstract_cmd_register_write(RegisterId(S1), 0x6666u32), Ok(()));
    assert_eq!(interface.dtm.regs[9], 0x6666);
    assert_eq!(interface.dtm.commands[1], transfer(0x1009, true, false));
    // the value is in data0 before the command runs
    let data = interface.dtm.seen.iter().position(|s| *s == seen_write(DATA0, 0x6666)).unwrap();
    let command = interface
        .dtm
        .seen
        .iter()
        .position(|s| *s == seen_write(COMMAND, transfer(0x1009, true, false)))
        .unwrap();
    assert!(data < command);
}

#[test]
fn a_wide_register_write_has_the_width_in_the_command() {
    let mut interface = attached(SimDm::new());
    // the simulated hart has 32-bit registers: a 64-bit access is not supported
    assert_eq!(
        interface.abstract_cmd_register_write(RegisterId(S1), 0x1_0000_0002u64),
        Err(RiscvError::AbstractCommand(AbstractCommandErrorKind::NotSupported))
    );
    assert_eq!(
        interface.dtm.commands,
        vec![(3 << 20) | (1 << 17) | (1 << 16) | 0x1009]
    );
    assert_eq!(&interface.dtm.seen[..2], &[seen_write(0x05, 1), seen_write(DATA0, 2)]);
}

#[test]
fn an_unsupported_register_is_remembered() {
    let mut interface = attached(SimDm::new());
    let mstatus = RegisterId(0x0300);
    let not_supported = || Err(RiscvError::AbstractCommand(AbstractCommandErrorKind::NotSupported));
    assert!(interface
        .check_abstract_cmd_register_support(mstatus, CoreRegisterAbstractCmdSupport::read()));
    assert_eq!(interface.abstract_cmd_register_read(mstatus), not_supported());
    assert_eq!(interface.dtm.commands.len(), 1);
    assert!(!interface
        .check_abstract_cmd_register_support(mstatus, CoreRegisterAbstractCmdSupport::read()));
    // writing has not been tried
    assert!(interface
        .check_abstract_cmd_register_support(mstatus, CoreRegisterAbstractCmdSupport::write()));
    interface.dtm.seen.clear();
    assert_eq!(interface.abstract_cmd_register_read(mstatus), not_supported());
    assert!(interface.dtm.seen.is_empty());
    assert_eq!(interface.dtm.commands.len(), 1);
    // other registers are not touched by this
    assert_eq!(interface.abstract_cmd_register_read(RegisterId(S0)), Ok(0));
}

#[test]
fn an_unsupported_write_is_remembered() {
    let mut interface = attached(SimDm::new());
    let mstatus = RegisterId(0x0300);
    let not_supported = || Err(RiscvError::AbstractCommand(AbstractCommandErrorKind::NotSupported));
    assert_eq!(interface.abstract_cmd_register_write(mstatus, 1u32), not_supported());
    interface.dtm.seen.clear();
    assert_eq!(interface.abstract_cmd_register_write(mstatus, 1u32), not_supported());
    assert!(interface.dtm.seen.is_empty());
    assert!(!interface
        .check_abstract_cmd_register_support(mstatus, CoreRegisterAbstractCmdSupport::write()));
    assert!(interface
        .check_abstract_cmd_register_support(mstatus, CoreRegisterAbstractCmdSupport::read()));
    assert!(!interface
        .check_abstract_cmd_register_support(mstatus, CoreRegisterAbstractCmdSupport::both()));
}

#[test]
fn support_is_only_ever_taken_away() {
    let mut interface = attached(SimDm::new());
    let id = RegisterId(0x0301);
    interface.set_abstract_cmd_register_unsupported(id, CoreRegisterAbstractCmdSupport::read());
    interface.set_abstract_cmd_register_unsupported(id, CoreRegisterAbstractCmdSupport::write());
    assert!(!interface.check_abstract_cmd_register_support(id, CoreRegisterAbstractCmdSupport::read()));
    assert!(!interface.check_abstract_cmd_register_support(id, CoreRegisterAbstractCmdSupport::write()));
    interface.set_abstract_cmd_register_unsupported(id, CoreRegisterAbstractCmdSupport::read());
    assert!(!interface.check_abstract_cmd_register_support(id, CoreRegisterAbstractCmdSupport::write()));
}

#[test]
fn a_csr_is_read_through_the_program_buffer() {
    let mut dm = SimDm::new();
    dm.csrs.insert(0x300, 0x1800);
    dm.regs[8] = 0x8888_0000;
    let mut interface = attached(dm);
    assert_eq!(interface.read_csr_progbuf(0x300), Ok(0x1800));
    // csrr s0, mstatus; ebreak
    assert_eq!(&interface.dtm.progbuf[..2], &[0x3000_2473, EBREAK]);
    assert_eq!(
        interface.dtm.commands,
        vec![
            transfer(0x1008, false, false),
            1 << 18,
            transfer(0x1008, false, false),
            transfer(0x1008, true, false),
        ]
    );
    assert_eq!(interface.dtm.regs[8], 0x8888_0000);
    assert_eq!(interface.dtm.csrs[&0x300], 0x1800);
}

#[test]
fn a_csr_is_written_through_the_program_buffer() {
    let mut dm = SimDm::new();
    dm.csrs.insert(0x7b1, 0);
    dm.regs[8] = 0x8888_0000;
    let mut interface = attached(dm);
    assert_eq!(interface.write_csr_progbuf(0x7b1, 0x2000_0000), Ok(()));
    // csrw dpc, s0; ebreak
    assert_eq!(&interface.dtm.progbuf[..2], &[0x7b14_1073, EBREAK]);
    assert_eq!(interface.dtm.csrs[&0x7b1], 0x2000_0000);
    assert_eq!(interface.dtm.regs[8], 0x8888_0000);
}

#[test]
fn a_csr_that_does_not_exist_fails_and_s0_is_put_back() {
    let mut dm = SimDm::new();
    dm.regs[8] = 0x8888_0000;
    let mut interface = attached(dm);
    let exception = || RiscvError::AbstractCommand(AbstractCommandErrorKind::Exception);
    assert_eq!(interface.read_csr_progbuf(0x123), Err(exception()));
    assert_eq!(interface.dtm.regs[8], 0x8888_0000);
    assert_eq!(interface.write_csr_progbuf(0x123, 5), Err(exception()));
    assert_eq!(interface.dtm.regs[8], 0x8888_0000);
}

#[test]
fn a_64_bit_value_is_written_high_slot_first() {
    let mut interface = attached(SimDm::new());
    assert_eq!(
        interface.write_large_dtm_register(LargeRegister::Arg0, 0x1111_2222_3333_4444u64),
        Ok(())
    );
    assert_eq!(
        interface.dtm.seen,
        vec![seen_write(0x05, 0x1111_2222), seen_write(DATA0, 0x3333_4444)]
    );
}

#[test]
fn a_64_bit_value_is_read_high_slot_first() {
    let mut interface = attached(SimDm::new());
    interface.dtm.sbdata = [0x3333_4444, 0x1111_2222, 0, 0];
    assert_eq!(
        interface.read_large_dtm_register::<u64>(LargeRegister::Sbdata),
        Ok(0x1111_2222_3333_4444)
    );
    assert_eq!(
        interface.dtm.seen,
        vec![seen_read(SBDATA1), seen_noop(), seen_read(SBDATA0), seen_noop()]
    );
}

#[test]
fn a_128_bit_value_goes_through_four_slots() {
    let mut interface = attached(SimDm::new());
    let value: u128 = 0x4444_4444_3333_3333_2222_2222_1111_1111;
    assert_eq!(interface.write_large_dtm_register(LargeRegister::Sbdata, value), Ok(()));
    assert_eq!(
        interface.dtm.seen,
        vec![
            seen_write(0x3f, 0x4444_4444),
            seen_write(0x3e, 0x3333_3333),
            seen_write(0x3d, 0x2222_2222),
            seen_write(0x3c, 0x1111_1111),
        ]
    );
    interface.dtm.seen.clear();
    interface.dtm.sb_config = 0;
    assert_eq!(interface.read_large_dtm_register::<u128>(LargeRegister::Sbdata), Ok(value));
    let reads: Vec<u64> = interface
        .dtm
        .seen
        .iter()
        .filter(|s| s.op == DmiOperation::Read)
        .map(|s| s.address)
        .collect();
    assert_eq!(reads, vec![0x3f, 0x3e, 0x3d, 0x3c]);
}

#[test]
fn a_small_value_takes_slot_0_alone() {
    let mut interface = attached(SimDm::new());
    assert_eq!(interface.write_large_dtm_register(LargeRegister::Arg0, 0xabu8), Ok(()));
    assert_eq!(interface.write_large_dtm_register(LargeRegister::Arg0, 0xabcdu16), Ok(()));
    assert_eq!(
        interface.dtm.seen,
        vec![seen_write(DATA0, 0xab), seen_write(DATA0, 0xabcd)]
    );
    interface.dtm.data[0] = 0x1234_5678;
    assert_eq!(interface.read_large_dtm_register::<u8>(LargeRegister::Arg0), Ok(0x78));
    assert_eq!(interface.read_large_dtm_register::<u16>(LargeRegister::Arg0), Ok(0x5678));
}

#[test]
fn scheduled_accesses_wait_for_the_batch() {
    let mut interface = attached(SimDm::new());
    interface.dtm.data[1] = 99;
    assert_eq!(interface.schedule_write_dm_register_untyped(DATA0, 5), Ok(0));
    assert_eq!(interface.schedule_read_dm_register_untyped(0x05), Ok(2));
    assert_eq!(
        interface.schedule_write_large_dtm_register(LargeRegister::Arg0, 0x7_0000_0008u64),
        Ok(4)
    );
    assert_eq!(interface.schedule_read_large_dtm_register::<u64>(LargeRegister::Arg0), Ok(8));
    assert!(interface.dtm.seen.is_empty());
    let results = interface.execute().unwrap();
    assert_eq!(results.len(), 9);
    assert_eq!(results[2], CommandResult::U32(99));
    assert_eq!(results[6], CommandResult::U32(7));
    assert_eq!(results[8], CommandResult::U32(8));
    assert_eq!(interface.dtm.seen.len(), 9);
}

#[test]
fn a_failed_dmi_transfer_is_handed_on_as_it_is() {
    let mut interface = attached(SimDm::new());
    interface.dtm.fail_access_at = Some(1);
    interface.dtm.fail_with_status = true;
    assert_eq!(
        interface.read_dm_register_untyped(0x11),
        Err(RiscvError::DmiTransfer(DmiOperationStatus::OperationFailed))
    );
    assert_eq!(interface.dtm.seen, vec![seen_read(0x11), seen_noop()]);
    interface.dtm.seen.clear();
    interface.dtm.fail_access_at = Some(0);
    assert_eq!(
        interface.read_word_32(0x2000_0000),
        Err(Error::ArchitectureSpecific(Box::new(RiscvError::DmiTransfer(
            DmiOperationStatus::OperationFailed
        ))))
    );
}

fn with_scratch_registers() -> SimDm {
    let mut dm = SimDm::without_system_bus();
    dm.regs[8] = 0x8888_0000;
    dm.regs[9] = 0x9999_0000;
    dm
}

#[test]
fn s1_is_put_back_even_where_putting_s0_back_fails() {
    // how many accesses a write takes when all goes well
    let mut interface = attached(with_scratch_registers());
    assert_eq!(interface.write_word_32(0x1000_0000, 5), Ok(()));
    let accesses = interface.dtm.seen.len();
    // each of the two writes back takes seven accesses: let the first one fail at once
    let mut interface = attached(with_scratch_registers());
    interface.dtm.fail_access_at = Some(accesses - 14);
    assert_eq!(
        interface.write_word_32(0x1000_0000, 6),
        Err(Error::Probe(DebugProbeError::ProbeSpecific(7)))
    );
    assert_eq!(interface.dtm.seen.len(), accesses - 14 + 1 + 7);
    assert_eq!(interface.dtm.load(0x1000_0000, 4), 6);
    assert_eq!(interface.dtm.regs[8], 0x1000_0000);
    assert_eq!(interface.dtm.regs[9], 0x9999_0000);
}

#[test]
fn the_failure_of_the_work_counts_before_one_of_putting_back() {
    let mut interface = attached(with_scratch_registers());
    assert_eq!(interface.write_word_32(0x1000_0000, 5), Ok(()));
    let accesses = interface.dtm.seen.len();
    // the store fails in the target, and the transport fails when s1 is put back
    let mut dm = with_scratch_registers();
    dm.bad_address = Some(0x1000_0000);
    let mut interface = attached(dm);
    // the error of the store is cleared before s0 is put back: one access more
    interface.dtm.fail_access_at = Some(accesses + 1 - 7);
    assert_eq!(
        interface.write_word_32(0x1000_0000, 6),
        Err(Error::ArchitectureSpecific(Box::new(RiscvError::AbstractCommand(
            AbstractCommandErrorKind::Exception
        ))))
    );
    assert_eq!(interface.dtm.regs[8], 0x8888_0000);
    assert_eq!(interface.dtm.regs[9], 6);
}

#[test]
fn the_cache_does_not_know_of_the_ebreak_behind_a_program() {
    let mut interface = attached(SimDm::new());
    assert_eq!(interface.setup_program_buffer(&[0x13, 0x93]), Ok(()));
    assert_eq!(interface.setup_program_buffer(&[0x113]), Ok(()));
    assert_eq!(interface.setup_program_buffer(&[0x13]), Ok(()));
    assert_eq!(&interface.dtm.progbuf[..3], &[0x13, EBREAK, EBREAK]);
    // the second word of the first program is still what the cache holds
    assert_eq!(&interface.state.progbuf_cache()[..2], &[0x13, 0x93]);
    interface.dtm.seen.clear();
    // so the first program is taken to be in the buffer, and is not written
    assert_eq!(interface.setup_program_buffer(&[0x13, 0x93]), Ok(()));
    assert!(interface.dtm.seen.is_empty());
    assert_eq!(&interface.dtm.progbuf[..3], &[0x13, EBREAK, EBREAK]);
}

#[test]
fn a_single_write_goes_well_after_a_write_of_many() {
    let mut interface = attached(with_scratch_registers());
    assert_eq!(interface.write_32(0x1000_0000, &[1, 2, 3]), Ok(()));
    interface.dtm.seen.clear();
    // the program of the write of many starts with the store: nothing is placed
    assert_eq!(interface.write_word_32(0x1000_0010, 9), Ok(()));
    assert_eq!(interface.dtm.progbuf_writes(), 0);
    assert_eq!(interface.dtm.load(0x1000_0010, 4), 9);
    assert_eq!(interface.dtm.load(0x1000_0008, 4), 3);
    assert_eq!(interface.read_word_32(0x1000_0010), Ok(9));
    assert_eq!(interface.dtm.regs[8], 0x8888_0000);
    assert_eq!(interface.dtm.regs[9], 0x9999_0000);
}
