use vst3_host::com::{
    add_ref_result, answers_interface, release_result, write_host_name, write_utf16_name,
    ReleaseOutcome, IID_ICOMPONENTHANDLER, IID_IHOSTAPPLICATION, IID_IPLUGINFACTORY2, IID_IUNKNOWN,
};

#[test]
fn objects_answer_to_unknown_and_their_own_interface() {
    assert!(answers_interface(&IID_IUNKNOWN, &IID_ICOMPONENTHANDLER));
    assert!(answers_interface(&IID_ICOMPONENTHANDLER, &IID_ICOMPONENTHANDLER));
    assert!(!answers_interface(&IID_IHOSTAPPLICATION, &IID_ICOMPONENTHANDLER));
    assert!(answers_interface(&IID_IHOSTAPPLICATION, &IID_IHOSTAPPLICATION));
    assert!(!answers_interface(&IID_IPLUGINFACTORY2, &IID_IHOSTAPPLICATION));
    assert!(!answers_interface(&IID_IUNKNOWN[..15], &IID_IHOSTAPPLICATION));
}

#[test]
fn reference_counting() {
    assert_eq!(add_ref_result(1), 2);
    assert_eq!(release_result(2), ReleaseOutcome { remaining: 1, destroy: false });
    assert_eq!(release_result(1), ReleaseOutcome { remaining: 0, destroy: true });
    // add_ref then release gives the count back without freeing.
    for count in [1u32, 5, 1000] {
        let after = add_ref_result(count);
        assert_eq!(release_result(after), ReleaseOutcome { remaining: count, destroy: false });
    }
}

#[test]
fn host_name_is_written_with_terminator() {
    let mut buf = [7i16; 128];
    write_host_name(&mut buf);
    let expected: Vec<i16> = "Hikaru OpenStudio".encode_utf16().map(|u| u as i16).collect();
    assert_eq!(&buf[..expected.len()], &expected[..]);
    assert_eq!(buf[expected.len()], 0);
    assert!(buf[expected.len() + 1..].iter().all(|&v| v == 7));
}

#[test]
fn long_names_are_cut_to_127_units() {
    let long: String = "ab".repeat(100);
    let mut buf = [1i16; 128];
    write_utf16_name(&mut buf, &long);
    assert_eq!(buf[125], b'b' as i16);
    assert_eq!(buf[126], b'a' as i16);
    assert_eq!(buf[127], 0);
    assert_eq!(buf[0], b'a' as i16);
}

#[test]
fn non_bmp_names_use_surrogates_as_signed_units() {
    let mut buf = [3i16; 128];
    write_utf16_name(&mut buf, "𝄞");
    assert_eq!(buf[0], 0xD834u16 as i16);
    assert_eq!(buf[1], 0xDD1Eu16 as i16);
    assert_eq!(buf[2], 0);
    assert_eq!(buf[3], 3);
}
