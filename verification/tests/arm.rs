use asan_runtime::arm::{ArmRegs, REGISTERS};

#[test]
fn every_register_has_its_number() {
    assert_eq!(ArmRegs::R0.into_primitive(), 0);
    assert_eq!(ArmRegs::R7.into_primitive(), 7);
    assert_eq!(ArmRegs::R15.into_primitive(), 15);
    for (i, reg) in ArmRegs::iter().into_iter().enumerate() {
        assert_eq!(reg.into_primitive(), i as i32);
        assert_eq!(ArmRegs::try_from_primitive(i as i32), Some(reg));
    }
    assert_eq!(ArmRegs::iter().len(), REGISTERS);
    assert_eq!(REGISTERS, 16);
}

#[test]
fn a_number_without_a_register_names_none() {
    assert_eq!(ArmRegs::try_from_primitive(16), None);
    assert_eq!(ArmRegs::try_from_primitive(-1), None);
    assert_eq!(ArmRegs::try_from_primitive(i32::MAX), None);
    assert_eq!(ArmRegs::try_from_primitive(i32::MIN), None);
}

#[test]
fn the_named_registers_are_the_numbered_ones() {
    assert_eq!(ArmRegs::SP, ArmRegs::R13);
    assert_eq!(ArmRegs::LR, ArmRegs::R14);
    assert_eq!(ArmRegs::PC, ArmRegs::R15);
    assert_eq!(ArmRegs::SB, ArmRegs::R9);
    assert_eq!(ArmRegs::SL, ArmRegs::R10);
    assert_eq!(ArmRegs::FP, ArmRegs::R11);
    assert_eq!(ArmRegs::IP, ArmRegs::R12);
    assert_eq!(ArmRegs::PC.into_primitive(), 15);
}
