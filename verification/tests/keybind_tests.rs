use push2talk::keybind::{
    build_binding, check_keysyms, default_keybind, split_keybind, validate_keybind, KeyBinding,
    KeybindError,
};

// Well-known XKB keysym values, as the name table answers for these names
const CONTROL_L: u32 = 0xffe3;
const SPACE: u32 = 0x20;
const SHIFT_R: u32 = 0xffe2;
const O_KEY: u32 = 0x6f;

#[test]
fn test_split_keybind_default() {
    // The built-in default binding is Control_L and Space
    let names = split_keybind(&default_keybind());
    assert_eq!(names.len(), 2);
    assert_eq!(names[0], b"Control_L".to_vec());
    assert_eq!(names[1], b"Space".to_vec());
}

#[test]
fn test_split_keybind_with_2_keys() {
    let names = split_keybind(&b"Control_L,O".to_vec());
    assert_eq!(names, vec![b"Control_L".to_vec(), b"O".to_vec()]);
}

#[test]
fn test_split_keybind_single_name() {
    let names = split_keybind(&b"Space".to_vec());
    assert_eq!(names, vec![b"Space".to_vec()]);
}

#[test]
fn test_split_keybind_empty_is_one_empty_name() {
    // the empty string is one empty name, which no table recognizes
    let names = split_keybind(&Vec::new());
    assert_eq!(names, vec![Vec::<u8>::new()]);
}

#[test]
fn test_split_keybind_keeps_empty_pieces() {
    let names = split_keybind(&b"a,,b".to_vec());
    assert_eq!(
        names,
        vec![b"a".to_vec(), Vec::<u8>::new(), b"b".to_vec()]
    );
}

#[test]
fn test_check_keysyms_accepts_recognized() {
    assert!(check_keysyms(&vec![CONTROL_L, SPACE]).is_ok());
}

#[test]
fn test_check_keysyms_rejects_no_symbol() {
    // 0 is the table's answer for an unrecognized name
    assert_eq!(
        check_keysyms(&vec![CONTROL_L, 0]),
        Err(KeybindError::UnknownKey)
    );
}

#[test]
fn test_validate_keybind_with_2_keys_is_valid() {
    let keybind = vec![CONTROL_L, SPACE];
    assert!(validate_keybind(&keybind).is_ok());
}

#[test]
fn test_validate_keybind_with_3_keys_is_invalid() {
    let keybind = vec![CONTROL_L, SPACE, SHIFT_R];
    assert!(validate_keybind(&keybind).is_err());
}

#[test]
fn test_validate_keybind_with_0_keys_is_invalid() {
    let keybind: Vec<u32> = Vec::new();
    assert_eq!(validate_keybind(&keybind), Err(KeybindError::BadCount(0)));
}

#[test]
fn test_build_binding_two_keys() {
    let binding = build_binding(&vec![CONTROL_L, SPACE]).unwrap();
    assert_eq!(
        binding,
        KeyBinding {
            first: CONTROL_L,
            second: Some(SPACE),
        }
    );
}

#[test]
fn test_build_binding_single_key() {
    let binding = build_binding(&vec![O_KEY]).unwrap();
    assert_eq!(
        binding,
        KeyBinding {
            first: O_KEY,
            second: None,
        }
    );
}

#[test]
fn test_build_binding_three_keys_is_bad_count() {
    assert_eq!(
        build_binding(&vec![CONTROL_L, SPACE, SHIFT_R]),
        Err(KeybindError::BadCount(3))
    );
}

#[test]
fn test_build_binding_unrecognized_name() {
    assert_eq!(
        build_binding(&vec![0]),
        Err(KeybindError::UnknownKey)
    );
}

#[test]
fn test_default_keybind_bytes() {
    assert_eq!(default_keybind(), b"Control_L,Space".to_vec());
}
