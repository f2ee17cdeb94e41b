use armx64::ir::{GuestReg, RegKind, RegWidth};

#[test]
fn register_31_is_zero_or_sp() {
    assert_eq!(GuestReg::x(31).kind, RegKind::Zero);
    assert_eq!(GuestReg::w(31).kind, RegKind::Zero);
    assert_eq!(GuestReg::xsp().kind, RegKind::StackPointer);
    assert_eq!(GuestReg::wsp().kind, RegKind::StackPointer);
}

#[test]
fn widths_are_explicit() {
    assert_eq!(GuestReg::x(0).width, RegWidth::X64);
    assert_eq!(GuestReg::w(0).width, RegWidth::W32);
}
