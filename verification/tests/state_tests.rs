use spv_filter::error::Error;
use spv_filter::filter::ProbabilisticFilter;
use spv_filter::state::{
    FilterState, DEFAULT_BITMAP_BYTES, DEFAULT_ITEM_COUNT, ITEM_FILTER_BITMAP_BYTES,
    ITEM_FILTER_ITEM_COUNT,
};

fn bits_set(content: &[u8]) -> Vec<usize> {
    let mut out = Vec::new();
    for i in 0..content.len() * 8 {
        if content[i / 8] & (1 << (i % 8)) != 0 {
            out.push(i);
        }
    }
    out
}

#[test]
fn sizes_are_those_of_one_false_positive_in_a_hundred() {
    let ln2 = std::f64::consts::LN_2;
    let size = |n: usize| ((n as f64) * (0.01f64).ln() / (-8.0 * ln2 * ln2)).ceil() as usize;
    assert_eq!(size(DEFAULT_ITEM_COUNT), DEFAULT_BITMAP_BYTES);
    assert_eq!(size(ITEM_FILTER_ITEM_COUNT), ITEM_FILTER_BITMAP_BYTES);
}

#[test]
fn a_new_state_holds_an_empty_default_filter() {
    let s = FilterState::with_tweak(9);
    assert!(!s.is_dirty());
    let w = s.snapshot();
    assert_eq!(w.content, vec![0u8; 11_982]);
    assert_eq!(w.hash_count, 7);
    assert_eq!(w.tweak, 9);
    assert_eq!(w.flags, 0);
    let r = FilterState::new();
    assert!(!r.is_dirty());
    assert_eq!(r.snapshot().content, vec![0u8; 11_982]);
    assert_eq!(r.snapshot().hash_count, 7);
}

#[test]
fn add_item_installs_a_filter_with_that_item() {
    let mut s = FilterState::with_tweak(9);
    let r = s.add_item_with_tweak("99108ad8ed9bb6274d3980bab5a85c048f0950c8", None, 7);
    assert_eq!(r, Ok(()));
    assert!(s.is_dirty());
    let w = s.snapshot();
    assert_eq!(w.content.len(), 1227);
    assert_eq!(w.hash_count, 7);
    assert_eq!(w.tweak, 7);
    assert_eq!(w.flags, 0);
    assert_eq!(bits_set(&w.content), vec![117, 448, 624, 831, 3042, 7323, 9664]);
    let item = hex::decode("99108ad8ed9bb6274d3980bab5a85c048f0950c8").unwrap();
    assert!(s.filter().contains(&item));
}

#[test]
fn add_item_reverses_a_transaction_id() {
    let text = "000102030405060708090a0b0c0d0e0f101112131415161718191a1b1c1d1e1f";
    let mut s = FilterState::with_tweak(9);
    assert_eq!(s.add_item_with_tweak(text, None, 7), Ok(()));
    assert_eq!(
        bits_set(&s.snapshot().content),
        vec![1037, 1804, 3297, 5038, 5518, 7871, 8423]
    );
    let reversed: Vec<u8> = (0u8..32).rev().collect();
    assert!(s.filter().contains(&reversed));
}

#[test]
fn add_item_takes_an_address_payload() {
    let payload = hex::decode("99108ad8ed9bb6274d3980bab5a85c048f0950c8").unwrap();
    let mut s = FilterState::with_tweak(9);
    let r = s.add_item_with_tweak(
        "bitcoincash:qpm2qsznhks23z7629mms6s4cwef74vcwvy22gdx6a",
        Some(payload),
        7,
    );
    assert_eq!(r, Ok(()));
    assert!(s.is_dirty());
    assert_eq!(
        bits_set(&s.snapshot().content),
        vec![117, 448, 624, 831, 3042, 7323, 9664]
    );
}

#[test]
fn add_item_matches_a_filter_built_by_hand() {
    let mut s = FilterState::with_tweak(1);
    assert_eq!(s.add_item_with_tweak("c0ffee", None, 41), Ok(()));
    let mut f =
        ProbabilisticFilter::with_tweak(ITEM_FILTER_BITMAP_BYTES, ITEM_FILTER_ITEM_COUNT, 41)
            .unwrap();
    f.insert(&[0xc0, 0xff, 0xee]);
    assert_eq!(s.snapshot(), f.to_wire_form());
}

#[test]
fn a_text_that_cannot_be_decoded_changes_nothing() {
    let mut s = FilterState::with_tweak(9);
    let before = s.snapshot();
    assert_eq!(s.add_item_with_tweak("not hex", None, 7), Err(Error::DecodeError));
    assert!(!s.is_dirty());
    assert_eq!(s.snapshot(), before);

    assert_eq!(s.add_item_with_tweak("c0ffee", None, 7), Ok(()));
    let held = s.snapshot();
    assert_eq!(s.add_item_with_tweak("c0ffe", None, 8), Err(Error::DecodeError));
    assert_eq!(s.add_item("xyz", None), Err(Error::DecodeError));
    assert!(s.is_dirty());
    assert_eq!(s.snapshot(), held);
}

#[test]
fn add_item_replaces_the_filter() {
    let mut s = FilterState::with_tweak(9);
    assert_eq!(s.add_item_with_tweak("c0ffee", None, 7), Ok(()));
    assert!(s.filter().contains(&[0xc0, 0xff, 0xee]));
    assert_eq!(s.add_item_with_tweak("0badf00d", None, 7), Ok(()));
    assert!(s.filter().contains(&[0x0b, 0xad, 0xf0, 0x0d]));
    assert!(!s.filter().contains(&[0xc0, 0xff, 0xee]));
}

#[test]
fn add_item_with_a_random_tweak_holds_the_item() {
    let mut s = FilterState::new();
    assert_eq!(s.add_item("c0ffee", None), Ok(()));
    assert!(s.is_dirty());
    assert!(s.filter().contains(&[0xc0, 0xff, 0xee]));
    assert_eq!(s.snapshot().content.len(), 1227);
    assert_eq!(s.snapshot().tweak, s.filter().tweak());
}

#[test]
fn reset_gives_an_empty_default_filter() {
    let mut s = FilterState::with_tweak(9);
    assert_eq!(s.add_item_with_tweak("c0ffee", None, 7), Ok(()));
    s.reset_with_tweak(3);
    assert!(!s.is_dirty());
    let w = s.snapshot();
    assert_eq!(w.content, vec![0u8; 11_982]);
    assert_eq!(w.hash_count, 7);
    assert_eq!(w.tweak, 3);
    assert!(!s.filter().contains(&[0xc0, 0xff, 0xee]));
    assert_eq!(s.add_item("c0ffee", None), Ok(()));
    s.reset();
    assert!(!s.is_dirty());
    assert_eq!(s.snapshot().content, vec![0u8; 11_982]);
}

#[test]
fn a_snapshot_is_not_reached_by_later_edits() {
    let mut s = FilterState::with_tweak(9);
    assert_eq!(s.add_item_with_tweak("c0ffee", None, 7), Ok(()));
    let held = s.snapshot();
    let copy = held.clone();
    s.reset_with_tweak(3);
    assert_eq!(s.add_item_with_tweak("0badf00d", None, 5), Ok(()));
    assert_eq!(held, copy);
    assert_eq!(held.tweak, 7);
}
