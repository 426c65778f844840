use vst3_host::factory::{describe_class, i8_array_to_string, ClassInfo, ClassInfo2};
use vst3_host::plugin_descriptor::PluginDescriptor;
use vst3_host::text::{encode_utf16, hex_string, push_i32, str_eq_ignore_ascii_case};

fn c_field<const N: usize>(text: &str) -> [i8; N] {
    let mut out = [0i8; N];
    for (slot, b) in out.iter_mut().zip(text.bytes()) {
        *slot = b as i8;
    }
    out
}

#[test]
fn i8_array_stops_at_first_nul() {
    let arr: [i8; 8] = [b'S' as i8, b'u' as i8, b'r' as i8, 0, b'x' as i8, b'y' as i8, 0, 0];
    assert_eq!(i8_array_to_string(&arr), "Sur");
}

#[test]
fn i8_array_without_nul_uses_whole_buffer() {
    let arr: [i8; 3] = [b'a' as i8, b'b' as i8, b'c' as i8];
    assert_eq!(i8_array_to_string(&arr), "abc");
}

#[test]
fn i8_array_empty_and_leading_nul() {
    assert_eq!(i8_array_to_string(&[]), "");
    assert_eq!(i8_array_to_string(&[0, b'a' as i8]), "");
}

#[test]
fn i8_array_decodes_utf8_and_replaces_invalid_bytes() {
    // "é" is 0xC3 0xA9 in UTF-8.
    let arr: [i8; 4] = [0xC3u8 as i8, 0xA9u8 as i8, 0, 0];
    assert_eq!(i8_array_to_string(&arr), "é");
    let bad: [i8; 2] = [0xFFu8 as i8, 0];
    assert_eq!(i8_array_to_string(&bad), "\u{FFFD}");
}

#[test]
fn i8_array_ignores_bytes_after_terminator() {
    let a: [i8; 4] = [b'o' as i8, b'k' as i8, 0, b'z' as i8];
    let b: [i8; 4] = [b'o' as i8, b'k' as i8, 0, 0x7f];
    assert_eq!(i8_array_to_string(&a), i8_array_to_string(&b));
}

#[test]
fn hex_string_is_lowercase_two_digits_per_byte() {
    assert_eq!(hex_string(&[0x00, 0x0f, 0xa5, 0xff]), "000fa5ff");
    assert_eq!(hex_string(&[]), "");
}

fn descriptor_with_id(class_id: [i8; 16]) -> PluginDescriptor {
    PluginDescriptor {
        class_id,
        name: String::new(),
        vendor: String::new(),
        category: String::new(),
        version: String::new(),
        binary_path: String::new(),
    }
}

#[test]
fn class_id_hex_reads_bytes_unsigned() {
    let mut id = [0i8; 16];
    id[0] = -1;
    id[1] = 0x10;
    id[15] = -128;
    let d = descriptor_with_id(id);
    assert_eq!(d.class_id_hex(), "ff100000000000000000000000000080");
    assert_eq!(d.class_id_hex().len(), 32);
}

#[test]
fn class_id_hex_tells_ids_apart() {
    let mut a = [0i8; 16];
    let mut b = [0i8; 16];
    a[7] = 1;
    b[7] = 2;
    assert_ne!(descriptor_with_id(a).class_id_hex(), descriptor_with_id(b).class_id_hex());
}

#[test]
fn describe_class_prefers_version_two_info() {
    let mut cid = [0u8; 16];
    cid[0] = 0xAB;
    cid[1] = 0x01;
    let info2 = ClassInfo2 {
        cid,
        category: c_field("Audio Module Class"),
        name: c_field("Surge XT"),
        vendor: c_field("Surge Synth Team"),
        version: c_field("1.3.1"),
    };
    let info1 = ClassInfo { cid: [9u8; 16], category: c_field("Other"), name: c_field("Old") };
    let d = describe_class(&Some(info2), &Some(info1), &"/plug/surge.so".to_string());
    assert_eq!(d.name, "Surge XT");
    assert_eq!(d.vendor, "Surge Synth Team");
    assert_eq!(d.category, "Audio Module Class");
    assert_eq!(d.version, "1.3.1");
    assert_eq!(d.class_id[0], 0xABu8 as i8);
    assert_eq!(d.class_id[1], 1);
    assert_eq!(d.binary_path, "/plug/surge.so");
}

#[test]
fn describe_class_falls_back_to_legacy_info() {
    let info1 = ClassInfo { cid: [0xFFu8; 16], category: c_field("Fx"), name: c_field("Delay") };
    let d = describe_class(&None, &Some(info1), &"/p.so".to_string());
    assert_eq!(d.name, "Delay");
    assert_eq!(d.category, "Fx");
    assert_eq!(d.vendor, "Unknown (Legacy Factory)");
    assert_eq!(d.version, "1.0.0 (Legacy)");
    assert_eq!(d.class_id, [-1i8; 16]);
}

#[test]
fn describe_class_without_info_is_blank() {
    let d = describe_class(&None, &None, &"/p.so".to_string());
    assert_eq!(d.name, "");
    assert_eq!(d.vendor, "");
    assert_eq!(d.category, "");
    assert_eq!(d.version, "");
    assert_eq!(d.class_id, [0i8; 16]);
    assert_eq!(d.binary_path, "/p.so");
}

#[test]
fn ascii_case_insensitive_comparison() {
    assert!(str_eq_ignore_ascii_case("VST3", "vst3"));
    assert!(str_eq_ignore_ascii_case("So", "sO"));
    assert!(!str_eq_ignore_ascii_case("vst", "vst3"));
    assert!(!str_eq_ignore_ascii_case("É", "é"));
    assert!(str_eq_ignore_ascii_case("", ""));
}

#[test]
fn utf16_encoding_matches_std() {
    for s in ["Hikaru OpenStudio", "", "añ€", "𝄞 clef"] {
        let expected: Vec<u16> = s.encode_utf16().collect();
        assert_eq!(encode_utf16(s), expected);
    }
}

#[test]
fn decimal_text_of_codes() {
    for v in [0i32, 7, -1, 42, -2147483648, 2147483647, 1000] {
        let mut s = String::from("x");
        push_i32(&mut s, v);
        assert_eq!(s, format!("x{}", v));
    }
}

#[test]
fn i8_array_text_never_holds_nul() {
    let arr: [i8; 6] = [b'a' as i8, 0xC0u8 as i8, 0x80u8 as i8, b'b' as i8, 0, b'c' as i8];
    let s = i8_array_to_string(&arr);
    assert!(!s.contains('\0'));
    assert_eq!(s, "a\u{FFFD}\u{FFFD}b");
}

#[test]
fn hex_pairs_read_back_as_bytes() {
    let bytes: [u8; 5] = [0x00, 0x09, 0x7a, 0xc3, 0xff];
    let s = hex_string(&bytes);
    assert!(s.chars().all(|c| c.is_ascii_digit() || ('a'..='f').contains(&c)));
    for (j, b) in bytes.iter().enumerate() {
        assert_eq!(u8::from_str_radix(&s[2 * j..2 * j + 2], 16), Ok(*b));
    }
}
