use riscv_dm::bits::{count_ones, get_field, get_flag, set_field, set_flag};
use riscv_dm::dtm::DmiOperation;
use riscv_dm::error::{
    AbstractCommandErrorKind, DebugModuleVersion, DebugProbeError, Error, RiscvBusAccess,
    RiscvError,
};
use riscv_dm::memory::valid_32_address;
use riscv_dm::registers::{
    progbuf_address, Abstractauto, Abstractcs, AccessMemoryCommand, AccessRegisterCommand,
    Command, Data0, DebugRegister, Dmcontrol, Dmstatus, Hartinfo, LargeRegister, Sbaddress0, Sbcs,
    Sbdata0,
};
use riscv_dm::state::{
    CoreRegisterAbstractCmdSupport, MemoryAccessMethod, RiscvCommunicationInterfaceState,
};
use riscv_dm::system_bus::{result_word, store_result_words};
use riscv_dm::dtm::CommandResult;
use riscv_dm::value::{RiscvValue, RiscvValue32};

#[test]
fn a_field_is_cut_out_of_a_word() {
    assert_eq!(get_field(0xdead_beef, 31, 0), 0xdead_beef);
    assert_eq!(get_field(0xdead_beef, 15, 8), 0xbe);
    assert_eq!(get_field(0xdead_beef, 31, 28), 0xd);
    assert_eq!(get_field(0xdead_beef, 0, 0), 1);
    assert_eq!(get_field(0xdead_beef, 4, 4), 0);
}

#[test]
fn a_field_is_put_into_a_word() {
    assert_eq!(set_field(0, 15, 8, 0xab), 0xab00);
    assert_eq!(set_field(0xffff_ffff, 15, 8, 0), 0xffff_00ff);
    // what does not fit the field is cut off
    assert_eq!(set_field(0, 10, 8, 0xff), 0x700);
    assert_eq!(set_field(0x1234_5678, 31, 0, 0x8765_4321), 0x8765_4321);
    assert_eq!(get_field(set_field(0x1234_5678, 19, 17, 5), 19, 17), 5);
    assert_eq!(get_field(set_field(0x1234_5678, 19, 17, 5), 16, 0), 0x5678);
    assert_eq!(get_field(set_field(0x1234_5678, 19, 17, 5), 31, 20), 0x123);
}

#[test]
fn a_flag_is_one_bit() {
    assert!(get_flag(0x8000_0000, 31));
    assert!(!get_flag(0x7fff_ffff, 31));
    assert_eq!(set_flag(0, 12, true), 0x1000);
    assert_eq!(set_flag(0xffff_ffff, 12, false), 0xffff_efff);
}

#[test]
fn ones_are_counted() {
    assert_eq!(count_ones(0), 0);
    assert_eq!(count_ones(1), 1);
    assert_eq!(count_ones(0xf_ffff), 20);
    assert_eq!(count_ones(0xffff_ffff), 32);
    assert_eq!(count_ones(0x8000_0001), 2);
    for word in [0x1234_5678u32, 0xdead_beef, 0x0f0f_0f0f] {
        assert_eq!(count_ones(word), word.count_ones());
    }
}

#[test]
fn every_command_error_has_a_kind() {
    let kinds = [
        AbstractCommandErrorKind::NoError,
        AbstractCommandErrorKind::Busy,
        AbstractCommandErrorKind::NotSupported,
        AbstractCommandErrorKind::Exception,
        AbstractCommandErrorKind::HaltResume,
        AbstractCommandErrorKind::Bus,
        AbstractCommandErrorKind::_Reserved,
        AbstractCommandErrorKind::Other,
    ];
    for (code, kind) in kinds.iter().enumerate() {
        assert_eq!(AbstractCommandErrorKind::parse(code as u8), *kind);
    }
}

#[test]
fn every_version_field_has_a_version() {
    assert_eq!(DebugModuleVersion::from(0), DebugModuleVersion::NoModule);
    assert_eq!(DebugModuleVersion::from(1), DebugModuleVersion::Version0_11);
    assert_eq!(DebugModuleVersion::from(2), DebugModuleVersion::Version0_13);
    assert_eq!(DebugModuleVersion::from(15), DebugModuleVersion::NonConforming);
    assert_eq!(DebugModuleVersion::from(3), DebugModuleVersion::Unknown(3));
    assert_eq!(DebugModuleVersion::from(14), DebugModuleVersion::Unknown(14));
    assert!(DebugModuleVersion::Version0_13.supported());
    assert!(!DebugModuleVersion::Version0_11.supported());
    assert!(!DebugModuleVersion::Unknown(2).supported());
}

#[test]
fn widths_have_codes_and_sizes() {
    let widths = [
        (RiscvBusAccess::A8, 0u8, 1usize, 1usize),
        (RiscvBusAccess::A16, 1, 2, 1),
        (RiscvBusAccess::A32, 2, 4, 1),
        (RiscvBusAccess::A64, 3, 8, 2),
        (RiscvBusAccess::A128, 4, 16, 4),
    ];
    for (width, code, bytes, slots) in widths {
        assert_eq!(width.code(), code);
        assert_eq!(u8::from(width), code);
        assert_eq!(width.byte_width(), bytes);
        assert_eq!(width.slots(), slots);
    }
    assert_eq!(DmiOperation::NoOp.code(), 0);
    assert_eq!(DmiOperation::Read.code(), 1);
    assert_eq!(DmiOperation::Write.code(), 2);
}

#[test]
fn a_failure_of_the_probe_is_handed_on_as_such() {
    assert_eq!(
        Error::from(RiscvError::DebugProbe(DebugProbeError::Timeout)),
        Error::Probe(DebugProbeError::Timeout)
    );
    assert_eq!(
        Error::from(RiscvError::Timeout),
        Error::ArchitectureSpecific(Box::new(RiscvError::Timeout))
    );
    assert_eq!(
        Error::from(RiscvError::ProgramBufferTooSmall),
        Error::ArchitectureSpecific(Box::new(RiscvError::ProgramBufferTooSmall))
    );
}

#[test]
fn addresses_have_32_bits() {
    assert_eq!(valid_32_address(0), Ok(0));
    assert_eq!(valid_32_address(0xffff_ffff), Ok(0xffff_ffff));
    assert_eq!(valid_32_address(0x1_0000_0000), Err(Error::AddressOutOfRange(0x1_0000_0000)));
    assert_eq!(valid_32_address(u64::MAX), Err(Error::AddressOutOfRange(u64::MAX)));
}

#[test]
fn the_registers_are_where_the_debug_module_has_them() {
    assert_eq!(Dmcontrol::address(), 0x10);
    assert_eq!(Dmstatus::address(), 0x11);
    assert_eq!(Hartinfo::address(), 0x12);
    assert_eq!(Abstractcs::address(), 0x16);
    assert_eq!(Command::address(), 0x17);
    assert_eq!(AccessRegisterCommand::address(), 0x17);
    assert_eq!(AccessMemoryCommand::address(), 0x17);
    assert_eq!(Abstractauto::address(), 0x18);
    assert_eq!(Data0::address(), 0x04);
    assert_eq!(Sbcs::address(), 0x38);
    assert_eq!(Sbaddress0::address(), 0x39);
    assert_eq!(Sbdata0::address(), 0x3c);
    assert_eq!(Dmstatus::name(), "dmstatus");
    assert_eq!(Sbcs::name(), "sbcs");
    assert_eq!(Command::name(), "command");
    assert_eq!(progbuf_address(0), Some(0x20));
    assert_eq!(progbuf_address(15), Some(0x2f));
    assert_eq!(progbuf_address(16), None);
    let sbdata: Vec<u8> = (0..4).map(|slot| LargeRegister::Sbdata.slot_address(slot)).collect();
    assert_eq!(sbdata, vec![0x3c, 0x3d, 0x3e, 0x3f]);
    let arg0: Vec<u8> = (0..4).map(|slot| LargeRegister::Arg0.slot_address(slot)).collect();
    assert_eq!(arg0, vec![0x04, 0x05, 0x06, 0x07]);
}

#[test]
fn dmstatus_shows_its_fields() {
    let status = Dmstatus((1 << 22) | (1 << 14) | (1 << 9) | (1 << 4) | 2);
    assert_eq!(status.version(), 2);
    assert!(status.impebreak());
    assert!(status.confstrptrvalid());
    assert!(status.anynonexistent());
    assert!(!status.allnonexistent());
    assert!(status.allhalted());
    assert!(!status.anyhalted());
    assert!(!status.allrunning());
    assert!(!status.allresumeack());
    assert_eq!(Dmstatus::from_raw(7).raw(), 7);
}

#[test]
fn dmcontrol_selects_harts() {
    let mut control = Dmcontrol(0);
    control.set_dmactive(true);
    assert_eq!(control.0, 1);
    control.set_hartsel(0xffff_ffff);
    assert_eq!(control.0, 0x03ff_ffc1);
    assert_eq!(control.hartsel(), 0xf_ffff);
    assert_eq!(control.hartsello(), 0x3ff);
    assert_eq!(control.hartselhi(), 0x3ff);
    assert_eq!(Dmcontrol::select_hart(0).0, 1);
    assert_eq!(Dmcontrol::select_hart(1).0, 0x0001_0001);
    // the low ten bits of the index stand above the high ten
    assert_eq!(Dmcontrol::select_hart(0x401).0, (1 << 16) | (1 << 6) | 1);
    assert_eq!(Dmcontrol::select_hart(0x401).hartsel(), 0x401);
    assert!(Dmcontrol::select_hart(5).dmactive());
    assert_eq!(Dmcontrol::for_abstract_command().0, 0x1000_0001);
    let mut request = Dmcontrol(0);
    request.set_haltreq(true);
    request.set_resumereq(true);
    request.set_ackhavereset(true);
    request.set_ndmreset(true);
    assert_eq!(request.0, 0xd000_0002);
    assert!(request.ndmreset());
}

#[test]
fn abstractcs_shows_its_fields() {
    let status = Abstractcs((8 << 24) | (1 << 12) | (3 << 8) | 2);
    assert_eq!(status.progbufsize(), 8);
    assert!(status.busy());
    assert_eq!(status.cmderr(), 3);
    assert_eq!(status.datacount(), 2);
    assert_eq!(Abstractcs::clear_cmderr().0, 0x700);
    assert_eq!(Hartinfo((5 << 20) | (1 << 16) | (3 << 12) | 0x7c0).nscratch(), 5);
    assert_eq!(Hartinfo((5 << 20) | (1 << 16) | (3 << 12) | 0x7c0).datasize(), 3);
    assert_eq!(Hartinfo((5 << 20) | (1 << 16) | (3 << 12) | 0x7c0).dataaddr(), 0x7c0);
    assert!(Hartinfo(1 << 16).dataaccess());
}

#[test]
fn abstractauto_has_a_bit_for_each_register() {
    assert_eq!(Abstractauto::all(8, 2).0, 0x00ff_0003);
    assert_eq!(Abstractauto::all(0, 1).0, 0x0000_0001);
    assert_eq!(Abstractauto::all(16, 12).0, 0xffff_0fff);
    // more than the register has bits for is cut off
    assert_eq!(Abstractauto::all(31, 15).0, 0xffff_0fff);
    let word = Abstractauto(0x1234_0567);
    assert_eq!(word.autoexecprogbuf(), 0x1234);
    assert_eq!(word.autoexecdata(), 0x567);
}

#[test]
fn sbcs_shows_and_takes_its_fields() {
    let sbcs = Sbcs((1 << 29) | (2 << 12) | (32 << 5) | 0b00101);
    assert_eq!(sbcs.sbversion(), 1);
    assert_eq!(sbcs.sberror(), 2);
    assert_eq!(sbcs.sbasize(), 32);
    assert!(sbcs.sbaccess8());
    assert!(!sbcs.sbaccess16());
    assert!(sbcs.sbaccess32());
    assert!(!sbcs.sbaccess64());
    assert!(!sbcs.sbaccess128());
    assert_eq!(Sbcs::for_access(RiscvBusAccess::A32, true, false, false).0, 0x0014_0000);
    assert_eq!(Sbcs::for_access(RiscvBusAccess::A32, true, true, true).0, 0x0015_8000);
    assert_eq!(Sbcs::for_access(RiscvBusAccess::A8, false, false, true).0, 0x0001_0000);
    assert_eq!(Sbcs::for_access(RiscvBusAccess::A128, false, false, false).0, 0x0008_0000);
    assert_eq!(Sbcs::for_access(RiscvBusAccess::A16, true, false, false).sbaccess(), 1);
}

#[test]
fn a_register_command_has_its_fields() {
    assert_eq!(
        AccessRegisterCommand::transfer(0x1009, RiscvBusAccess::A32, true, true).0,
        (2 << 20) | (1 << 18) | (1 << 17) | (1 << 16) | 0x1009
    );
    assert_eq!(
        AccessRegisterCommand::transfer(0x1008, RiscvBusAccess::A32, false, false).0,
        0x0022_1008
    );
    assert_eq!(
        AccessRegisterCommand::transfer(0xffff, RiscvBusAccess::A64, true, false).0,
        0x0033_ffff
    );
    assert_eq!(AccessRegisterCommand::postexec_only().0, 0x0004_0000);
    let mut command = AccessRegisterCommand(0);
    command.set_aarsize(RiscvBusAccess::A128);
    command.set_aarpostincrement(true);
    assert_eq!(command.raw(), (4 << 20) | (1 << 19));
}

#[test]
fn a_memory_command_is_of_type_2() {
    let mut command = AccessMemoryCommand(0);
    command.set_aamsize(2);
    command.set_write(true);
    assert_eq!(command.raw(), (2 << 24) | (2 << 20) | (1 << 16));
    command.set_aamvirtual(true);
    command.set_aampostincrement(true);
    command.set_target_specific(3);
    assert_eq!(command.raw(), (2 << 24) | (1 << 23) | (2 << 20) | (1 << 19) | (1 << 16) | (3 << 14));
}

#[test]
fn support_is_a_set_of_two() {
    let mut support = CoreRegisterAbstractCmdSupport::both();
    assert!(support.supports(CoreRegisterAbstractCmdSupport::read()));
    assert!(support.supports(CoreRegisterAbstractCmdSupport::write()));
    support.unset(CoreRegisterAbstractCmdSupport::read());
    assert_eq!(support, CoreRegisterAbstractCmdSupport::write());
    assert!(!support.supports(CoreRegisterAbstractCmdSupport::read()));
    assert!(!support.supports(CoreRegisterAbstractCmdSupport::both()));
    assert!(support.supports(CoreRegisterAbstractCmdSupport::write()));
    support.unset(CoreRegisterAbstractCmdSupport::both());
    assert_eq!(support, CoreRegisterAbstractCmdSupport(0));
}

#[test]
fn a_fresh_state_knows_nothing() {
    let mut state = RiscvCommunicationInterfaceState::new();
    assert_eq!(state.debug_version(), DebugModuleVersion::NonConforming);
    assert_eq!(state.progbuf_size(), 0);
    assert_eq!(state.progbuf_cache(), [0u32; 16]);
    assert!(!state.implicit_ebreak());
    assert_eq!(state.data_register_count(), 1);
    assert_eq!(state.nscratch(), 0);
    assert!(!state.supports_autoexec());
    assert_eq!(state.confstrptr(), None);
    assert_eq!(state.hartsellen(), 20);
    assert_eq!(state.num_harts(), 1);
    assert!(state.supports(0x1008, CoreRegisterAbstractCmdSupport::both()));
    assert_eq!(state.memory_access_method(RiscvBusAccess::A32), MemoryAccessMethod::ProgramBuffer);
    assert_eq!(state.memory_access_method(RiscvBusAccess::A32), MemoryAccessMethod::ProgramBuffer);
    let default = RiscvCommunicationInterfaceState::default();
    assert_eq!(default.hartsellen(), 20);
    assert_eq!(default.num_harts(), 1);
}

#[test]
fn a_state_remembers_what_it_is_told() {
    let mut state = RiscvCommunicationInterfaceState::new();
    state.set_memory_access_method(RiscvBusAccess::A16, MemoryAccessMethod::SystemBus);
    assert_eq!(state.memory_access_method(RiscvBusAccess::A16), MemoryAccessMethod::SystemBus);
    assert_eq!(state.recorded_access_method(RiscvBusAccess::A8), MemoryAccessMethod::ProgramBuffer);
    state.set_unsupported(7, CoreRegisterAbstractCmdSupport::write());
    assert!(state.supports(7, CoreRegisterAbstractCmdSupport::read()));
    assert!(!state.supports(7, CoreRegisterAbstractCmdSupport::write()));
    assert!(state.supports(8, CoreRegisterAbstractCmdSupport::write()));
    state.set_progbuf_size(4);
    state.set_num_harts(2);
    assert_eq!(state.progbuf_size(), 4);
    assert_eq!(state.num_harts(), 2);
}

#[test]
fn the_cache_is_compared_by_its_start() {
    let mut state = RiscvCommunicationInterfaceState::new();
    assert!(state.cache_holds(&[]));
    assert!(state.cache_holds(&[0, 0]));
    assert!(!state.cache_holds(&[1]));
    state.cache_program(&[1, 2, 3]);
    assert!(state.cache_holds(&[1, 2, 3]));
    assert!(state.cache_holds(&[1, 2]));
    assert!(state.cache_holds(&[1, 2, 3, 0]));
    assert!(!state.cache_holds(&[1, 2, 4]));
    assert!(!state.cache_holds(&[0u32; 17]));
    state.cache_program(&[9]);
    assert_eq!(&state.progbuf_cache()[..4], &[9, 2, 3, 0]);
}

#[test]
fn values_are_made_of_slots() {
    assert_eq!(u8::width(), RiscvBusAccess::A8);
    assert_eq!(u16::width(), RiscvBusAccess::A16);
    assert_eq!(u32::width(), RiscvBusAccess::A32);
    assert_eq!(u64::width(), RiscvBusAccess::A64);
    assert_eq!(u128::width(), RiscvBusAccess::A128);
    assert_eq!(0xabu8.slot(0), 0xab);
    assert_eq!(0xabu8.slot(1), 0);
    assert_eq!(0x1122_3344_5566_7788u64.slot(0), 0x5566_7788);
    assert_eq!(0x1122_3344_5566_7788u64.slot(1), 0x1122_3344);
    assert_eq!(0x1122_3344_5566_7788u64.slot(2), 0);
    let wide: u128 = 0x4444_4444_3333_3333_2222_2222_1111_1111;
    assert_eq!([wide.slot(0), wide.slot(1), wide.slot(2), wide.slot(3)], [0x1111_1111, 0x2222_2222, 0x3333_3333, 0x4444_4444]);
    assert_eq!(wide.slot(4), 0);
    assert_eq!(u128::from_slots(0x1111_1111, 0x2222_2222, 0x3333_3333, 0x4444_4444), wide);
    assert_eq!(u64::from_slots(0x5566_7788, 0x1122_3344, 9, 9), 0x1122_3344_5566_7788);
    assert_eq!(u32::from_slots(5, 9, 9, 9), 5);
    assert_eq!(u16::from_slots(0x1_2345, 9, 9, 9), 0x2345);
    assert_eq!(u8::from_slots(0x1_2345, 9, 9, 9), 0x45);
    assert_eq!(u8::from_register_value(0xffff_ff80), 0x80);
    assert_eq!(u16::from_register_value(0xffff_8001), 0x8001);
    assert_eq!(u32::from_register_value(0xffff_8001), 0xffff_8001);
    assert_eq!(0x80u8.register_value(), 0x80);
    assert_eq!(0x8001u16.register_value(), 0x8001);
    assert_eq!(7u32.register_value(), 7);
}

#[test]
fn results_of_a_batch_are_taken_by_their_place() {
    let results = vec![
        CommandResult::U32(1),
        CommandResult::Nothing,
        CommandResult::U32(3),
        CommandResult::U8(4),
        CommandResult::U16(5),
        CommandResult::VecU8(vec![6]),
    ];
    assert_eq!(result_word(&results, 0), Some(1));
    assert_eq!(result_word(&results, 1), None);
    assert_eq!(result_word(&results, 2), Some(3));
    assert_eq!(result_word(&results, 3), None);
    assert_eq!(result_word(&results, 4), None);
    assert_eq!(result_word(&results, 5), None);
    assert_eq!(result_word(&results, 6), None);
    let mut data = [0u16; 3];
    assert!(store_result_words(&mut data, &vec![2, 0, 2], &results));
    assert_eq!(data, [3, 1, 3]);
    let mut data = [9u8; 3];
    assert!(!store_result_words(&mut data, &vec![0, 1, 2], &results));
    assert_eq!(data, [1, 9, 9]);
    let mut short = [9u32; 1];
    assert!(store_result_words(&mut short, &vec![2, 1], &results));
    assert_eq!(short, [3]);
}
