use class_file_parser::big_data::DATA_SIZE;
use class_file_parser::types::{Boolean, Byte, Char, Int, IntegralTypes, Long, Short, Type};

#[test]
fn fresh_values_are_zero() {
    assert_eq!(*Byte::new().get(), 0);
    assert_eq!(*Short::new().get(), 0);
    assert_eq!(*Int::new().get(), 0);
    assert_eq!(*Long::new().get(), 0);
    assert_eq!(*Char::new().get(), 0);
    assert!(!*Boolean::new().get());
}

#[test]
fn set_replaces_the_value() {
    let mut v = Int::from_value(7);
    assert_eq!(*v.get(), 7);
    v.set(-3);
    assert_eq!(*v.get(), -3);
    let mut b = Boolean::new();
    b.set(true);
    assert!(*b.get());
}

#[test]
fn long_takes_two_slots() {
    assert_eq!(Long::new().width(), 2);
    assert_eq!(Byte::new().width(), 1);
    assert_eq!(Short::new().width(), 1);
    assert_eq!(Int::new().width(), 1);
    assert_eq!(Char::new().width(), 1);
    assert_eq!(Boolean::new().width(), 1);
}

#[test]
fn values_print_with_their_kind() {
    assert_eq!(Type::to_string(&Byte::from_value(-128)), "byte(-128)");
    assert_eq!(Type::to_string(&Short::from_value(300)), "short(300)");
    assert_eq!(Type::to_string(&Int::from_value(42)), "int(42)");
    assert_eq!(Type::to_string(&Long::from_value(-9_000_000_000)), "long(-9000000000)");
    assert_eq!(Type::to_string(&Char::from_value(65)), "char(65)");
    assert_eq!(Type::to_string(&Boolean::from_value(true)), "boolean(true)");
}

#[test]
fn integral_kinds_hold_their_box() {
    let v = IntegralTypes::Short(Short::from_value(5));
    match v {
        IntegralTypes::Short(s) => assert_eq!(*s.get(), 5),
        _ => panic!("wrong kind"),
    }
}

#[test]
fn payload_size_is_one_hundred_mebibytes() {
    assert_eq!(DATA_SIZE, 104_857_600);
}
