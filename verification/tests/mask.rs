use tmn::cassette::eq;
use tmn::{complex, quaternion};

#[test]
fn eq_reads_one_bit_of_the_mask() {
    for c in 0..=255_u8 {
        for idx in 0..8_u8 {
            assert_eq!(eq(c, idx), ((c >> idx) & 1) != 0);
        }
    }
}

#[test]
fn eq_selects_nothing_past_the_eighth_bit() {
    for c in 0..=255_u8 {
        for idx in 8..=255_u8 {
            assert!(!eq(c, idx));
        }
    }
}

#[test]
fn flags_name_their_components() {
    assert_eq!(complex::R, 1);
    assert_eq!(complex::I, 2);
    assert_eq!(quaternion::R, 1);
    assert_eq!(quaternion::I, 2);
    assert_eq!(quaternion::J, 4);
    assert_eq!(quaternion::K, 8);
    let flags = [quaternion::R, quaternion::I, quaternion::J, quaternion::K];
    for k in 0..4_u8 {
        for idx in 0..8_u8 {
            assert_eq!(eq(flags[k as usize], idx), idx == k);
        }
    }
}

#[test]
fn a_combined_mask_selects_what_either_mask_selects() {
    for a in 0..=255_u8 {
        for b in 0..=255_u8 {
            for idx in 0..8_u8 {
                assert_eq!(eq(a | b, idx), eq(a, idx) || eq(b, idx));
            }
        }
    }
}

#[test]
fn the_empty_mask_selects_nothing() {
    for idx in 0..=255_u8 {
        assert!(!eq(0, idx));
    }
}
