use athenacl::interpreter::{Input, InputKind};

#[test]
fn pitch_is_one_nonempty_line() {
    let input = Input::new("pitch".to_string(), InputKind::Pitch);
    assert!(input.is_valid("c4,d4,e4"));
    assert!(input.is_valid("4-3 a"));
    assert!(!input.is_valid(""));
    assert!(!input.is_valid("c4\nd4"));
    assert!(!input.is_valid("c4\r"));
}

#[test]
fn instance_name_is_one_argument() {
    let input = Input::new("name".to_string(), InputKind::InstanceName);
    assert!(input.is_valid("pathA"));
    assert!(!input.is_valid(""));
    assert!(!input.is_valid("two words"));
    assert!(!input.is_valid("tab\there"));
    assert_eq!(input.name(), "name");
    assert_eq!(input.kind(), InputKind::InstanceName);
}

#[test]
fn validators_directly() {
    assert!(Input::validate_pitch("8.00"));
    assert!(!Input::validate_pitch("\n"));
    assert!(Input::validate_instance_name("x1"));
    assert!(!Input::validate_instance_name(" x1"));
}
