use bit_bool::{IndexOutOfRange, OneBitBool, MAX_INDEX};

#[test]
fn bit_bool_test() {
    let x = OneBitBool::from(true);
    let mut y = OneBitBool::from(true);
    y.change_index(2, false);
    println!("{} {}", x.to_string(), y.to_string());
}

#[test]
fn from_sets_every_bit_to_the_value() {
    for v in [false, true] {
        let c = OneBitBool::from(v);
        for i in 0..8 {
            assert_eq!(c.get_index(i), v);
        }
    }
}

#[test]
fn empty_equals_from_false() {
    assert_eq!(OneBitBool::empty(), OneBitBool::from(false));
    assert_ne!(OneBitBool::empty(), OneBitBool::from(true));
}

#[test]
fn change_index_sets_one_bit_and_keeps_the_rest() {
    for start in [false, true] {
        for i in 0..8 {
            for v in [false, true] {
                let before = OneBitBool::from(start);
                let mut c = before;
                c.change_index(i, v);
                assert_eq!(c.get_index(i), v);
                for j in 0..8 {
                    if j != i {
                        assert_eq!(c.get_index(j), before.get_index(j));
                    }
                }
            }
        }
    }
}

#[test]
fn change_index_twice_equals_once() {
    let mut once = OneBitBool::empty();
    once.change_index(5, true);
    let mut twice = OneBitBool::empty();
    twice.change_index(5, true);
    twice.change_index(5, true);
    assert_eq!(once, twice);
    once.change_index(0, false);
    twice.change_index(0, false);
    twice.change_index(0, false);
    assert_eq!(once, twice);
}

#[test]
fn rendering_full_and_empty() {
    assert_eq!(OneBitBool::from(true).to_string(), "11111111");
    assert_eq!(OneBitBool::from(false).to_string(), "0");
    assert_eq!(OneBitBool::empty().to_string(), "0");
}

#[test]
fn rendering_has_no_leading_zeros() {
    let mut c = OneBitBool::empty();
    c.change_index(0, true);
    assert_eq!(c.to_string(), "1");
    c.change_index(0, false);
    c.change_index(3, true);
    assert_eq!(c.to_string(), "1000");
    let mut d = OneBitBool::from(true);
    d.change_index(7, false);
    assert_eq!(d.to_string(), "1111111");
}

#[test]
fn clear_bit_two_of_full_cell() {
    let mut c = OneBitBool::from(true);
    c.change_index(2, false);
    assert_eq!(c.get_index(2), false);
    assert_eq!(c.get_index(0), true);
    assert_eq!(c.get_index(7), true);
    assert_eq!(c.to_string(), "11111011");
}

#[test]
fn equal_construction_and_copy_isolation() {
    assert_eq!(OneBitBool::from(true), OneBitBool::from(true));
    assert_eq!(OneBitBool::from(false), OneBitBool::from(false));
    let original = OneBitBool::from(true);
    let mut copy = original;
    copy.change_index(4, false);
    assert_eq!(original.get_index(4), true);
    assert_eq!(original, OneBitBool::from(true));
    assert_ne!(original, copy);
    let cloned = original.clone();
    assert_eq!(cloned, original);
}

#[test]
fn try_get_index_in_and_out_of_range() {
    let mut c = OneBitBool::empty();
    c.change_index(7, true);
    assert_eq!(c.try_get_index(7), Ok(true));
    assert_eq!(c.try_get_index(6), Ok(false));
    assert_eq!(
        c.try_get_index(8),
        Err(IndexOutOfRange { requested: 8, max_valid: 7 })
    );
    assert_eq!(
        c.try_get_index(usize::MAX),
        Err(IndexOutOfRange { requested: usize::MAX, max_valid: MAX_INDEX })
    );
}

#[test]
fn try_change_index_in_and_out_of_range() {
    let mut c = OneBitBool::empty();
    assert_eq!(c.try_change_index(1, true), Ok(()));
    assert_eq!(c.to_string(), "10");
    let before = c;
    assert_eq!(
        c.try_change_index(8, true),
        Err(IndexOutOfRange { requested: 8, max_valid: 7 })
    );
    assert_eq!(c, before);
}
