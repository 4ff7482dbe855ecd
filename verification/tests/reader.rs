use smartcard_apdu::{
    find_reader, status_from_bits, CardStatus, Disposition, Protocol, ShareMode,
};

#[test]
fn share_mode_codes() {
    assert_eq!(ShareMode::from_code(0), ShareMode::Shared);
    assert_eq!(ShareMode::from_code(1), ShareMode::Exclusive);
    assert_eq!(ShareMode::from_code(2), ShareMode::Direct);
    assert_eq!(ShareMode::from_code(u32::MAX), ShareMode::Direct);
}

#[test]
fn protocol_codes() {
    assert_eq!(Protocol::from_code(Some(0)), Protocol::T0);
    assert_eq!(Protocol::from_code(Some(1)), Protocol::T1);
    assert_eq!(Protocol::from_code(Some(2)), Protocol::Raw);
    assert_eq!(Protocol::from_code(Some(3)), Protocol::Any);
    assert_eq!(Protocol::from_code(None), Protocol::Any);
}

#[test]
fn find_reader_gives_first_exact_match() {
    let names = vec!["ACS ACR122U 00".to_string(), "Gemalto 01".to_string(), "Gemalto 01".to_string()];
    assert_eq!(find_reader(&names, &"Gemalto 01".to_string()), Some(1));
    assert_eq!(find_reader(&names, &"ACS ACR122U 00".to_string()), Some(0));
}

#[test]
fn find_reader_rejects_partial_names() {
    let names = vec!["ACS ACR122U 00".to_string()];
    assert_eq!(find_reader(&names, &"ACS".to_string()), None);
    assert_eq!(find_reader(&names, &"acs acr122u 00".to_string()), None);
    assert_eq!(find_reader(&Vec::new(), &"ACS".to_string()), None);
}

#[test]
fn status_flags_follow_the_masks() {
    let s = status_from_bits(0x0220, 0x20, 0x10, 0x200, vec![0x3B, 0x00]);
    assert_eq!(
        s,
        CardStatus { present: true, empty: false, mute: true, atr: Some(vec![0x3B, 0x00]) }
    );
    let s = status_from_bits(0x0010, 0x20, 0x10, 0x200, vec![]);
    assert_eq!(s, CardStatus { present: false, empty: true, mute: false, atr: None });
}

#[test]
fn empty_answer_to_reset_is_absent() {
    assert_eq!(CardStatus::from_flags(true, false, false, vec![]).atr, None);
    assert_eq!(CardStatus::from_flags(true, false, false, vec![0x3B]).atr, Some(vec![0x3B]));
    assert_eq!(
        CardStatus::without_atr(false, true, false),
        CardStatus { present: false, empty: true, mute: false, atr: None }
    );
}

#[test]
fn disposition_codes() {
    assert_eq!(Disposition::from_code(0), Some(Disposition::Leave));
    assert_eq!(Disposition::from_code(1), Some(Disposition::Reset));
    assert_eq!(Disposition::from_code(2), Some(Disposition::Unpower));
    assert_eq!(Disposition::from_code(3), Some(Disposition::Eject));
    assert_eq!(Disposition::from_code(4), None);
    assert_eq!(Disposition::from_code(u32::MAX), None);
}
