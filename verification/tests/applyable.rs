use optional_struct::value::Value;
use optional_struct::{Applyable, OptionalStructureField};

#[test]
fn a_missing_value_leaves_the_target() {
    let mut target = 7u32;
    None.apply_to(&mut target);
    assert_eq!(target, 7);
    Some(9u32).apply_to(&mut target);
    assert_eq!(target, 9);
}

#[test]
fn a_value_replaces_the_target() {
    let mut target = Some(7u32);
    None::<u32>.apply_to(&mut target);
    assert_eq!(target, None);
    let mut name = "a".to_string();
    "b".to_string().apply_to(&mut name);
    assert_eq!(name, "b");
}

#[test]
fn an_optional_field_is_applied_as_what_it_holds() {
    let mut target: Value<u8> = Value::Leaf(1);
    OptionalStructureField::<Value<u8>>(None).apply_to(&mut target);
    assert_eq!(target, Value::Leaf(1));
    OptionalStructureField::<Value<u8>>(Some(Value::Leaf(2))).apply_to(&mut target);
    assert_eq!(target, Value::Leaf(2));
}
