use urcu::boxed::RcuBox;

#[test]
fn box_replace_returns_previous_value() {
    let mut data = RcuBox::new(1u32);
    assert_eq!(*data.as_ref(), 1);
    let old = data.replace(2);
    assert_eq!(*old.get(), 1);
    assert_eq!(*data.as_ref(), 2);
    let old = data.replace(3);
    assert_eq!(*old.take_ownership(), 2);
    assert_eq!(*data.as_ref(), 3);
}
