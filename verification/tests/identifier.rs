//! Identifier verification: exact 4-byte match at the fixed position.

use flatread::table::buffer_has_identifier;

fn identified_buffer() -> Vec<u8> {
    let mut d: Vec<u8> = Vec::new();
    d.extend_from_slice(&[16, 0, 0, 0]); // root forward offset
    d.extend_from_slice(b"MONS"); // identifier at bytes 4..8
    d.extend_from_slice(&[0, 0, 0, 0, 0, 0, 0, 0]); // rest of the payload
    d
}

#[test]
fn identifier_matches() {
    let d = identified_buffer();
    assert!(buffer_has_identifier(&d, "MONS", false));
    assert!(!buffer_has_identifier(&d, "MONX", false));
    assert!(!buffer_has_identifier(&d, "ONSM", false));
}

#[test]
fn identifier_single_byte_mutation_flips_result() {
    let d = identified_buffer();
    for i in 4..8 {
        let mut m = d.clone();
        m[i] = m[i].wrapping_add(1);
        assert!(!buffer_has_identifier(&m, "MONS", false));
    }
    // a mutation outside the identifier region changes nothing
    let mut m = d.clone();
    m[8] = 77;
    assert!(buffer_has_identifier(&m, "MONS", false));
}

#[test]
fn identifier_behind_size_prefix() {
    let mut d: Vec<u8> = Vec::new();
    d.extend_from_slice(&[16, 0, 0, 0]); // size prefix
    d.extend_from_slice(&[12, 0, 0, 0]); // root forward offset
    d.extend_from_slice(b"FLAT"); // identifier at bytes 8..12
    d.extend_from_slice(&[0, 0, 0, 0]);
    assert!(buffer_has_identifier(&d, "FLAT", true));
    assert!(!buffer_has_identifier(&d, "MONS", true));
    assert!(!buffer_has_identifier(&d, "FLAT", false));
}
