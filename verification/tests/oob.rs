use syauth::oob::{oob_code_for_bond, oob_code_from_okm, OOB_BOND_KEY_BYTES, OOB_CODE_DIGITS};

const FIXED_KEY_A: [u8; OOB_BOND_KEY_BYTES] = [0x01; OOB_BOND_KEY_BYTES];
const FIXED_KEY_B: [u8; OOB_BOND_KEY_BYTES] = [0x02; OOB_BOND_KEY_BYTES];

#[test]
fn oob_code_is_deterministic_for_fixed_key() {
    let a = oob_code_for_bond(&FIXED_KEY_A);
    let b = oob_code_for_bond(&FIXED_KEY_A);
    assert_eq!(a, b, "same bond_key must produce the same code");
    assert_eq!(OOB_CODE_DIGITS, a.chars().count());
}

#[test]
fn oob_code_is_always_exactly_eight_digits() {
    for key in [FIXED_KEY_A, FIXED_KEY_B, [0x00; OOB_BOND_KEY_BYTES], [0xFF; OOB_BOND_KEY_BYTES]] {
        let code = oob_code_for_bond(&key);
        assert_eq!(OOB_CODE_DIGITS, code.len(), "zero padding must hold for {code}");
        assert!(code.chars().all(|c| c.is_ascii_digit()), "digits only: {code}");
    }
}

#[test]
fn oob_code_differs_across_keys() {
    assert_ne!(oob_code_for_bond(&FIXED_KEY_A), oob_code_for_bond(&FIXED_KEY_B));
}

#[test]
fn the_code_is_the_big_endian_value_modulo_ten_to_the_eight() {
    assert_eq!(oob_code_from_okm([0, 0, 0, 0]), "00000000");
    assert_eq!(oob_code_from_okm([0, 0, 0, 42]), "00000042");
    assert_eq!(oob_code_from_okm([0x05, 0xF5, 0xE1, 0x00]), "00000000");
    assert_eq!(oob_code_from_okm([0xFF, 0xFF, 0xFF, 0xFF]), "94967295");
}

#[test]
fn the_code_is_not_the_key_itself() {
    let key = [0x30u8; OOB_BOND_KEY_BYTES];
    let from_key_prefix = oob_code_from_okm([0x30, 0x30, 0x30, 0x30]);
    assert_ne!(oob_code_for_bond(&key), from_key_prefix);
}
