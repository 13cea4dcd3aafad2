use periph::InvalidFieldError;
use periph::mmio::RegisterBlock;
use periph::reg::Access;
use periph::reg::Field;
use periph::reg::FieldWrite;
use periph::reg::Register;
use periph::reg::mask_range_ex;

fn two_field_register() -> (RegisterBlock, Register) {
    let blk = RegisterBlock::new(0x1000, 4);
    let fields = vec![
        Field { lo: 0, hi: 3, access: Access::ReadWrite },
        Field { lo: 4, hi: 7, access: Access::ReadWrite },
    ];
    let reg = Register::new(1, Access::ReadWrite, fields).unwrap();
    (blk, reg)
}

#[test]
fn mask_range_values() {
    assert_eq!(mask_range_ex(0, 15), 0xFFFF);
    assert_eq!(mask_range_ex(16, 31), 0xFFFF_0000);
    assert_eq!(mask_range_ex(9, 9), 0x200);
    assert_eq!(mask_range_ex(0, 31), u32::MAX);
}

#[test]
fn field_get_extracts_bits() {
    let f = Field { lo: 4, hi: 7, access: Access::ReadWrite };
    assert_eq!(f.get(0xABCD), 0xC);
}

#[test]
fn register_new_rejects_overlap() {
    let fields = vec![
        Field { lo: 0, hi: 4, access: Access::ReadWrite },
        Field { lo: 4, hi: 6, access: Access::ReadWrite },
    ];
    assert!(Register::new(0, Access::ReadWrite, fields).is_err());
}

#[test]
fn register_new_rejects_out_of_range() {
    let reversed = vec![Field { lo: 3, hi: 2, access: Access::ReadWrite }];
    assert!(Register::new(0, Access::ReadWrite, reversed).is_err());
    let too_high = vec![Field { lo: 0, hi: 32, access: Access::ReadWrite }];
    assert!(Register::new(0, Access::ReadWrite, too_high).is_err());
}

#[test]
fn write_then_read_roundtrip() {
    let (mut blk, reg) = two_field_register();
    let mut fw = FieldWrite::new();
    fw.set(&reg, 0, 5).unwrap();
    fw.set(&reg, 1, 9).unwrap();
    reg.write(&mut blk, &fw).unwrap();
    assert_eq!(reg.read(&mut blk).unwrap(), 0x95);
}

#[test]
fn modify_preserves_other_fields() {
    let (mut blk, reg) = two_field_register();
    let mut fw = FieldWrite::new();
    fw.set(&reg, 0, 5).unwrap();
    fw.set(&reg, 1, 9).unwrap();
    reg.write(&mut blk, &fw).unwrap();
    let mut only_low = FieldWrite::new();
    only_low.set(&reg, 0, 1).unwrap();
    reg.modify(&mut blk, &only_low).unwrap();
    assert_eq!(reg.read(&mut blk).unwrap(), 0x91);
}

#[test]
fn set_rejects_oversized_value() {
    let (_blk, reg) = two_field_register();
    let mut fw = FieldWrite::new();
    assert_eq!(fw.set(&reg, 0, 16), Err(InvalidFieldError));
}

#[test]
fn set_rejects_unknown_field() {
    let (_blk, reg) = two_field_register();
    let mut fw = FieldWrite::new();
    assert_eq!(fw.set(&reg, 5, 1), Err(InvalidFieldError));
}

#[test]
fn set_rejects_read_only_field() {
    let fields = vec![Field { lo: 0, hi: 3, access: Access::ReadOnly }];
    let reg = Register::new(0, Access::ReadWrite, fields).unwrap();
    let mut fw = FieldWrite::new();
    assert_eq!(fw.set(&reg, 0, 1), Err(InvalidFieldError));
}

#[test]
fn write_rejects_read_only_register() {
    let mut blk = RegisterBlock::new(0x1000, 4);
    let fields = vec![Field { lo: 0, hi: 3, access: Access::ReadWrite }];
    let reg = Register::new(0, Access::ReadOnly, fields).unwrap();
    let fw = FieldWrite::new();
    assert_eq!(reg.write(&mut blk, &fw), Err(InvalidFieldError));
    assert_eq!(reg.read(&mut blk).unwrap(), 0);
}

#[test]
fn read_rejects_write_only_register() {
    let mut blk = RegisterBlock::new(0x1000, 4);
    let fields = vec![Field { lo: 0, hi: 3, access: Access::ReadWrite }];
    let reg = Register::new(0, Access::WriteOnly, fields).unwrap();
    assert_eq!(reg.read(&mut blk), Err(InvalidFieldError));
}

#[test]
fn repeated_read_returns_same_value() {
    let (mut blk, reg) = two_field_register();
    let mut fw = FieldWrite::new();
    fw.set(&reg, 1, 7).unwrap();
    reg.write(&mut blk, &fw).unwrap();
    let first = reg.read(&mut blk).unwrap();
    let second = reg.read(&mut blk).unwrap();
    let third = reg.read(&mut blk).unwrap();
    assert_eq!(first, second);
    assert_eq!(second, third);
}

#[test]
fn reserved_bits_stay_clear() {
    let mut blk = RegisterBlock::new(0x1000, 4);
    let fields = vec![Field { lo: 0, hi: 3, access: Access::ReadWrite }];
    let reg = Register::new(2, Access::ReadWrite, fields).unwrap();
    let mut fw = FieldWrite::new();
    fw.set(&reg, 0, 0xF).unwrap();
    reg.write(&mut blk, &fw).unwrap();
    assert_eq!(reg.read(&mut blk).unwrap(), 0xF);
    reg.modify(&mut blk, &fw).unwrap();
    assert_eq!(reg.read(&mut blk).unwrap() & !0xF, 0);
}
