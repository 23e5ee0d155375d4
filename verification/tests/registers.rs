use sextant::ast::{Register, Type, Value, Variable};
use sextant::vm::memory_map::Memory;
use sextant::vm::register::{get_register_position, RegisterPosition};
use sextant::vm::VMError;

#[test]
fn resolves_first_and_last_names() {
    assert_eq!(get_register_position("$zero"), Ok(0));
    assert_eq!(get_register_position("$ra"), Ok(31));
}

#[test]
fn resolves_conventional_names() {
    assert_eq!(get_register_position("$v0"), Ok(2));
    assert_eq!(get_register_position("$a0"), Ok(4));
    assert_eq!(get_register_position("$t5"), Ok(13));
    assert_eq!(get_register_position("$s7"), Ok(23));
    assert_eq!(get_register_position("$sp"), Ok(29));
}

#[test]
fn rejects_unknown_names() {
    assert_eq!(get_register_position("$nope"), Err(VMError::UnknownRegister));
    assert_eq!(get_register_position(""), Err(VMError::UnknownRegister));
    assert_eq!(get_register_position("zero"), Err(VMError::UnknownRegister));
}

#[test]
fn register_reference_resolves_through_the_table() {
    let r = Register { name: "$a1".to_string() };
    assert_eq!(r.get_register_position(), Ok(5));
    let bad = Register { name: "$x9".to_string() };
    assert_eq!(bad.get_register_position(), Err(VMError::UnknownRegister));
}

#[test]
fn text_variable_encodes_as_raw_bytes_without_terminator() {
    let v = Variable {
        name: "prompt".to_string(),
        type_: Type::Asciiz,
        value: Value::String("Sum: ".to_string()),
    };
    assert_eq!(v.size(), 5);
    assert_eq!(v.to_bytes(), b"Sum: ".to_vec());
}

#[test]
fn empty_text_variable_occupies_no_bytes() {
    let v = Variable {
        name: "empty".to_string(),
        type_: Type::Asciiz,
        value: Value::String(String::new()),
    };
    assert_eq!(v.size(), 0);
    assert_eq!(v.to_bytes(), Vec::<u8>::new());
}
