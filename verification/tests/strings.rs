use nova_vm::heap::{Agent, Realm};
use nova_vm::utf16::{
    char_code_points, check_well_formed, code_point_at, encode_utf16, is_inside_pair,
    unit_code_points,
};
use nova_vm::values::{ExoticObject, Function, JsString, Object};

fn agent() -> Agent {
    Agent::new(Realm {
        object_prototype: Object::Exotic(ExoticObject { index: 1 }),
        reg_exp_prototype: Object::Exotic(ExoticObject { index: 2 }),
        reg_exp_prototype_exec: Function { index: 3 },
    })
}

#[test]
fn text_round_trips() {
    let mut agent = agent();
    let s = JsString::from_str(&mut agent, "aé😀\u{FFFF}");
    assert_eq!(s.utf16_len(&agent), 5);
    assert_eq!(
        s.to_units(&agent),
        "aé😀\u{FFFF}".encode_utf16().collect::<Vec<u16>>()
    );
    assert_eq!(s.to_string_lossy(&agent), "aé😀\u{FFFF}");
}

#[test]
fn unpaired_surrogates_are_kept() {
    let mut agent = agent();
    let units: Vec<u16> = vec![0xDE00, 0x61, 0xD83D, 0xD83D, 0xDE00, 0xD83D];
    let s = JsString::from_units(&mut agent, &units);
    assert_eq!(s.to_units(&agent), units);
    assert_eq!(
        s.to_string_lossy(&agent),
        "\u{FFFD}a\u{FFFD}😀\u{FFFD}"
    );
    assert_eq!(s.code_point_at(&agent, 0), 0xDE00);
    assert_eq!(s.code_point_at(&agent, 2), 0xD83D);
    assert_eq!(s.code_point_at(&agent, 3), 0x1F600);
    assert_eq!(s.code_point_at(&agent, 4), 0xDE00);
}

#[test]
fn empty_string_is_always_there() {
    let agent = agent();
    assert_eq!(JsString::empty().utf16_len(&agent), 0);
    assert_eq!(JsString::empty().to_string_lossy(&agent), "");
}

#[test]
fn encoding_agrees_with_std() {
    for text in ["", "a", "\u{7FF}\u{800}\u{D7FF}\u{E000}\u{10000}\u{10FFFF}", "日本😀"] {
        let units: Vec<u16> = text.encode_utf16().collect();
        assert_eq!(encode_utf16(text), units);
        assert!(check_well_formed(&units));
        assert_eq!(
            char_code_points(text),
            text.chars().map(u32::from).collect::<Vec<u32>>()
        );
        assert_eq!(
            unit_code_points(&units),
            units.iter().map(|u| *u as u32).collect::<Vec<u32>>()
        );
    }
}

#[test]
fn surrogates_are_told_apart() {
    assert!(!check_well_formed(&[0xD83D]));
    assert!(!check_well_formed(&[0xDE00, 0xD83D]));
    assert!(check_well_formed(&[0xD83D, 0xDE00]));
    assert!(!check_well_formed(&[0xD83D, 0xDE00, 0xDE00]));
    assert!(is_inside_pair(&[0xD83D, 0xDE00], 1));
    assert!(!is_inside_pair(&[0xD83D, 0xDE00], 0));
    assert!(!is_inside_pair(&[0xD83D, 0xDE00], 2));
    assert_eq!(code_point_at(&[0xDBFF, 0xDFFF], 0), 0x10FFFF);
}
