use grambulate::{grambulate, GrambulateError};

#[test]
fn test_grambulate() -> Result<(), GrambulateError> {
    assert_eq!(grambulate(1, 2)?, 11);
    assert_eq!(grambulate(1, 9)?, 25);
    assert_eq!(grambulate(1, 7)?, 21);
    assert_eq!(grambulate(7, 1)?, 3);
    assert_eq!(grambulate(9, 5)?, 37);
    assert_eq!(grambulate(114, 116)?, 118);

    assert_eq!(grambulate(120842908, 765255103)?, 2562110898);
    assert_eq!(grambulate(283311628, 982590465)?, 3030985010);
    assert_eq!(grambulate(841055110, 210288268)?, 1373718672);
    assert_eq!(grambulate(435594887, 106289809)?, 1721403763);
    assert_eq!(grambulate(239517836, 742207561)?, 4894885652);
    assert_eq!(grambulate(128398453, 764847139)?, 2794172097);
    assert_eq!(grambulate(751271524, 945230955)?, 4979352842);

    // precision
    assert_eq!(
        grambulate(9223372036854775807, 9223372036854775808)?,
        9223372036854775809
    );

    Ok(())
}

#[test]
fn documented_examples() {
    assert_eq!(grambulate(1, 2), Ok(11));
    assert_eq!(grambulate(5, 15), Ok(33));
    assert_eq!(grambulate(7, 21), Ok(43));
    assert_eq!(grambulate(21, 7), Ok(1));
}

#[test]
fn zero_operands_are_rejected() {
    for x in [0u64, 1, 2, 17, u64::MAX] {
        assert_eq!(grambulate(0, x), Err(GrambulateError::ZeroInput));
        assert_eq!(grambulate(x, 0), Err(GrambulateError::ZeroInput));
    }
}

#[test]
fn grambulation_does_not_commute() {
    assert_ne!(grambulate(7, 21), grambulate(21, 7));
}

#[test]
fn grambulating_a_value_with_itself_gives_it_back() {
    for v in [1u64, 2, 9, 100, 4294967296, u64::MAX] {
        assert_eq!(grambulate(v, v), Ok(v));
    }
}

#[test]
fn results_beyond_64_bits_are_reported() {
    assert_eq!(
        grambulate(1, u64::MAX),
        Err(GrambulateError::ResultTooLarge)
    );
    assert_eq!(
        grambulate(u64::MAX, 1),
        Err(GrambulateError::ResultTooLarge)
    );
}
