use ws_uring::user_data::{Event, UserData};

#[test]
fn from_parts_packs_fields_into_their_bits() {
    let u = UserData::from_parts(1, 3, 1201);
    assert_eq!(u.as_u64(), (1u64 << 56) | (3u64 << 40) | 1201);
}

#[test]
fn getters_give_back_the_packed_parts() {
    let u = UserData::from_parts(0xAB, 0xBEEF, 0xDEAD_BEEF);
    assert_eq!(u.event(), 0xAB);
    assert_eq!(u.owner(), 0xBEEF);
    assert_eq!(u.req(), 0xDEAD_BEEF);
}

#[test]
fn getters_of_extreme_parts() {
    let u = UserData::from_parts(u8::MAX, u16::MAX, u32::MAX);
    assert_eq!(u.event(), u8::MAX);
    assert_eq!(u.owner(), u16::MAX);
    assert_eq!(u.req(), u32::MAX);
    assert_eq!(u.as_u64(), 0xFFFF_FF00_FFFF_FFFF);
    let z = UserData::from_parts(0, 0, 0);
    assert_eq!(z.as_u64(), 0);
}

#[test]
fn repacking_a_word_with_unused_bits_loses_them() {
    let word = 0x0102_0304_0506_0708u64;
    let u = UserData::from_packed(word);
    assert_eq!(u.as_u64(), word);
    assert_eq!(u.event(), 0x01);
    assert_eq!(u.owner(), 0x0203);
    assert_eq!(u.req(), 0x0506_0708);
    let repacked = UserData::from_parts(u.event(), u.owner(), u.req());
    assert_eq!(repacked.as_u64(), 0x0102_0300_0506_0708);
    assert_ne!(repacked.as_u64(), word);
}

#[test]
fn repacking_a_word_without_unused_bits_gives_it_back() {
    let word = 0x0102_0300_0506_0708u64;
    let u = UserData::from_packed(word);
    let repacked = UserData::from_parts(u.event(), u.owner(), u.req());
    assert_eq!(repacked.as_u64(), word);
    assert!(repacked == u);
}

#[test]
fn user_data_converts_into_its_word() {
    let u = UserData::from_parts(1, 2, 3);
    let w: u64 = u.into();
    assert_eq!(w, (1u64 << 56) | (2u64 << 40) | 3);
}

#[test]
fn event_codes_round_trip() {
    assert_eq!(Event::from_u8(0), Event::Send);
    assert_eq!(Event::from_u8(1), Event::MultishortRecv);
    assert_eq!(Event::Send.as_u8(), 0);
    assert_eq!(Event::MultishortRecv.as_u8(), 1);
    assert_eq!(Event::from_u8(Event::MultishortRecv.as_u8()), Event::MultishortRecv);
}
