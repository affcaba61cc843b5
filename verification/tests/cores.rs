use riscv_dm::breakpoints::{
    find_free_breakpoint_comparator_index, position_of, set_breakpoints, unit_for_new_breakpoint,
    unit_of_breakpoint,
};
use riscv_dm::cores::{
    BreakpointId, CoreInformation, CoreStatus, CoreType, HaltReason, RegisterDataType,
    RegisterDescription, RegisterFile, RegisterId, RegisterKind, RegisterValue, SpecificCoreState,
};
use riscv_dm::error::Error;

const fn general(name: &'static str, id: u16) -> RegisterDescription {
    RegisterDescription {
        name,
        _kind: RegisterKind::General,
        id: RegisterId(id),
        _type: RegisterDataType::UnsignedInteger,
        size_in_bits: 32,
    }
}

const PC: RegisterDescription = RegisterDescription {
    name: "pc",
    _kind: RegisterKind::PC,
    id: RegisterId(0x7b1),
    _type: RegisterDataType::UnsignedInteger,
    size_in_bits: 32,
};
const SP: RegisterDescription = general("sp", 0x1002);
const RA: RegisterDescription = general("ra", 0x1001);
const FP: RegisterDescription = general("fp", 0x1008);
const ARGUMENTS: [RegisterDescription; 2] = [general("a0", 0x100a), general("a1", 0x100b)];
const RESULTS: [RegisterDescription; 1] = [general("a0", 0x100a)];
const PLATFORM: [RegisterDescription; 3] =
    [general("x0", 0x1000), general("x1", 0x1001), general("x2", 0x1002)];
const FPU: [RegisterDescription; 2] = [
    RegisterDescription {
        name: "f0",
        _kind: RegisterKind::Fp,
        id: RegisterId(0x1020),
        _type: RegisterDataType::FloatingPoint,
        size_in_bits: 64,
    },
    RegisterDescription {
        name: "f1",
        _kind: RegisterKind::Fp,
        id: RegisterId(0x1021),
        _type: RegisterDataType::FloatingPoint,
        size_in_bits: 64,
    },
];

fn riscv_registers() -> RegisterFile {
    RegisterFile {
        platform_registers: &PLATFORM,
        program_counter: &PC,
        stack_pointer: &SP,
        return_address: &RA,
        frame_pointer: &FP,
        argument_registers: &ARGUMENTS,
        result_registers: &RESULTS,
        msp: None,
        psp: None,
        extra: None,
        psr: None,
        fp_status: None,
        fp_registers: None,
    }
}

fn registers_with_fpu() -> RegisterFile {
    RegisterFile {
        msp: Some(&SP),
        psp: Some(&RA),
        psr: Some(&FP),
        fp_status: Some(&PC),
        fp_registers: Some(&FPU),
        ..riscv_registers()
    }
}

#[test]
fn a_description_tells_what_it_holds() {
    let d = general("a0", 0x100a);
    assert_eq!(d.name(), "a0");
    assert_eq!(d.data_type(), RegisterDataType::UnsignedInteger);
    assert_eq!(d.size_in_bits(), 32);
    assert_eq!(FPU[0].data_type(), RegisterDataType::FloatingPoint);
}

#[test]
fn the_size_in_bytes_is_rounded_up() {
    let sized = |bits: usize| RegisterDescription { size_in_bits: bits, ..general("r", 0) };
    assert_eq!(sized(0).size_in_bytes(), 0);
    assert_eq!(sized(1).size_in_bytes(), 1);
    assert_eq!(sized(8).size_in_bytes(), 1);
    assert_eq!(sized(9).size_in_bytes(), 2);
    assert_eq!(sized(32).size_in_bytes(), 4);
    assert_eq!(sized(33).size_in_bytes(), 5);
    assert_eq!(sized(usize::MAX).size_in_bytes(), usize::MAX / 8 + 1);
}

#[test]
fn the_hex_width_has_room_for_the_prefix() {
    let sized = |bits: usize| RegisterDescription { size_in_bits: bits, ..general("r", 0) };
    assert_eq!(sized(32).format_hex_width(), 10);
    assert_eq!(sized(64).format_hex_width(), 18);
    assert_eq!(sized(1).format_hex_width(), 4);
    assert_eq!(sized(0).format_hex_width(), 2);
    assert_eq!(format!("{:#0width$x}", 0x2au32, width = sized(32).format_hex_width()), "0x0000002a");
}

#[test]
fn register_ids_convert() {
    assert_eq!(u32::from(RegisterId(0x1008)), 0x1008);
    assert_eq!(RegisterId::from(0x1008u16), RegisterId(0x1008));
    assert_eq!(RegisterId::from(general("s0", 0x1008)), RegisterId(0x1008));
}

#[test]
fn register_values_convert() {
    assert_eq!(RegisterValue::from(5u32), RegisterValue::U32(5));
    assert_eq!(RegisterValue::from(5u64), RegisterValue::U64(5));
    assert_eq!(RegisterValue::U32(7).try_into_u32(), Ok(7));
    assert_eq!(RegisterValue::U64(0xffff_ffff).try_into_u32(), Ok(0xffff_ffff));
    assert_eq!(
        RegisterValue::U64(0x1_0000_0000).try_into_u32(),
        Err(Error::ValueTooLarge(0x1_0000_0000))
    );
    assert_eq!(RegisterValue::U32(7).try_into_u64(), Ok(7));
    assert_eq!(RegisterValue::U64(u64::MAX).try_into_u64(), Ok(u64::MAX));
}

#[test]
fn a_register_file_names_its_registers() {
    let file = riscv_registers();
    assert_eq!(file.registers().len(), 3);
    assert_eq!(file.registers()[1].name(), "x1");
    assert_eq!(file.program_counter().name(), "pc");
    assert_eq!(file.stack_pointer().name(), "sp");
    assert_eq!(file.return_address().name(), "ra");
    assert_eq!(file.frame_pointer().name(), "fp");
    assert_eq!(file.argument_register(1).name(), "a1");
    assert_eq!(file.result_register(0).name(), "a0");
    assert_eq!(file.platform_register(2).name(), "x2");
}

#[test]
fn a_register_file_knows_where_its_lists_end() {
    let file = riscv_registers();
    assert_eq!(file.get_argument_register(1), Some(&ARGUMENTS[1]));
    assert_eq!(file.get_argument_register(2), None);
    assert_eq!(file.get_result_register(0), Some(&RESULTS[0]));
    assert_eq!(file.get_result_register(1), None);
    assert_eq!(file.get_platform_register(0), Some(&PLATFORM[0]));
    assert_eq!(file.get_platform_register(3), None);
    assert_eq!(file.get_platform_register(usize::MAX), None);
}

#[test]
fn a_register_file_without_the_arm_registers() {
    let file = riscv_registers();
    assert_eq!(file.msp(), None);
    assert_eq!(file.psp(), None);
    assert_eq!(file.psr(), None);
    assert_eq!(file.fpscr(), None);
    assert!(file.fpu_registers().is_none());
    assert_eq!(file.fpu_register(0), None);
    assert_eq!(file.get_fpu_register(0), None);
}

#[test]
fn a_register_file_with_a_floating_point_unit() {
    let file = registers_with_fpu();
    assert_eq!(file.msp(), Some(&SP));
    assert_eq!(file.psp(), Some(&RA));
    assert_eq!(file.psr(), Some(&FP));
    assert_eq!(file.fpscr(), Some(&PC));
    assert_eq!(file.fpu_registers().map(|r| r.len()), Some(2));
    assert_eq!(file.fpu_register(1), Some(&FPU[1]));
    assert_eq!(file.get_fpu_register(1), Some(&FPU[1]));
    assert_eq!(file.get_fpu_register(2), None);
}

#[test]
fn the_state_of_a_core_is_for_its_kind() {
    let kinds = [
        CoreType::Armv6m,
        CoreType::Armv7a,
        CoreType::Armv7m,
        CoreType::Armv8a,
        CoreType::Armv8m,
        CoreType::Riscv,
    ];
    for kind in kinds {
        assert_eq!(SpecificCoreState::from_core_type(kind).core_type(), kind);
    }
    // an ARMv7-EM core is driven as an ARMv7-M core
    assert_eq!(SpecificCoreState::from_core_type(CoreType::Armv7em).core_type(), CoreType::Armv7m);
    assert!(matches!(SpecificCoreState::from_core_type(CoreType::Riscv), SpecificCoreState::Riscv));
}

#[test]
fn only_a_halted_core_is_halted() {
    assert!(CoreStatus::Halted(HaltReason::Breakpoint).is_halted());
    assert!(CoreStatus::Halted(HaltReason::Unknown).is_halted());
    assert!(!CoreStatus::Running.is_halted());
    assert!(!CoreStatus::LockedUp.is_halted());
    assert!(!CoreStatus::Sleeping.is_halted());
    assert!(!CoreStatus::Unknown.is_halted());
}

#[test]
fn small_values_hold_what_they_are_given() {
    assert_eq!(BreakpointId::new(3), BreakpointId(3));
    assert_eq!(CoreInformation { pc: 0x2000_0000 }.pc, 0x2000_0000);
}

#[test]
fn the_first_unit_that_holds_a_value_is_found() {
    let units = [Some(0x10), None, Some(0x20), Some(0x10), None];
    assert_eq!(position_of(&units, Some(0x10)), Some(0));
    assert_eq!(position_of(&units, Some(0x20)), Some(2));
    assert_eq!(position_of(&units, None), Some(1));
    assert_eq!(position_of(&units, Some(0x30)), None);
    assert_eq!(position_of(&[], None), None);
}

#[test]
fn a_new_breakpoint_goes_where_it_is_or_to_the_first_free_unit() {
    let units = [Some(0x10), None, Some(0x20), None];
    assert_eq!(unit_for_new_breakpoint(&units, 0x20), Ok(2));
    assert_eq!(unit_for_new_breakpoint(&units, 0x30), Ok(1));
    assert_eq!(find_free_breakpoint_comparator_index(&units), Ok(1));
    let full = [Some(0x10), Some(0x20)];
    assert_eq!(unit_for_new_breakpoint(&full, 0x10), Ok(0));
    assert_eq!(unit_for_new_breakpoint(&full, 0x30), Err(Error::NoBreakpointUnitAvailable));
    assert_eq!(find_free_breakpoint_comparator_index(&full), Err(Error::NoBreakpointUnitAvailable));
    assert_eq!(find_free_breakpoint_comparator_index(&[]), Err(Error::NoBreakpointUnitAvailable));
}

#[test]
fn a_breakpoint_is_cleared_where_it_is() {
    let units = [Some(0x10), None, Some(0x20), Some(0x10)];
    assert_eq!(unit_of_breakpoint(&units, 0x10), Ok(0));
    assert_eq!(unit_of_breakpoint(&units, 0x20), Ok(2));
    assert_eq!(unit_of_breakpoint(&units, 0x30), Err(Error::NoBreakpointAt(0x30)));
}

#[test]
fn all_set_breakpoints_are_listed_in_order() {
    assert_eq!(set_breakpoints(&[Some(0x10), None, Some(0x20), Some(0x10)]), vec![0x10, 0x20, 0x10]);
    assert_eq!(set_breakpoints(&[None, None]), Vec::<u64>::new());
    assert_eq!(set_breakpoints(&[]), Vec::<u64>::new());
}
