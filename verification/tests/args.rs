use boel::args::{is_usize, is_usize_and_non_null, parse_usize};
use boel::config::{Datatype, Endianess};
use boel::random::DistributionSpec;

#[test]
fn decimal_numbers_are_read() {
    assert_eq!(parse_usize("0"), Some(0));
    assert_eq!(parse_usize("7"), Some(7));
    assert_eq!(parse_usize("80"), Some(80));
    assert_eq!(parse_usize("0012"), Some(12));
    assert_eq!(parse_usize("+5"), Some(5));
    assert_eq!(parse_usize("+0"), Some(0));
    assert_eq!(parse_usize("123456789"), Some(123456789));
}

#[test]
fn the_largest_usize_is_read_and_the_next_number_is_not() {
    assert_eq!(parse_usize(&usize::MAX.to_string()), Some(usize::MAX));
    let mut next = (usize::MAX as u128 + 1).to_string();
    assert_eq!(parse_usize(&next), None);
    next.push('0');
    assert_eq!(parse_usize(&next), None);
    assert_eq!(parse_usize("99999999999999999999999999999999999999"), None);
}

#[test]
fn what_is_no_decimal_number_is_not_read() {
    for text in ["", "+", "-", "-1", "-0", "++1", "1+", "12a", "a12", " 12", "12 ", "1 2", "1_000"]
    {
        assert_eq!(parse_usize(text), None);
    }
    for text in ["1.5", "0x10", "١٢", "１２", "1e3", "+-1", "\u{0}1"] {
        assert_eq!(parse_usize(text), None);
    }
}

#[test]
fn reading_agrees_with_the_standard_library() {
    let texts = [
        "", "0", "00", "+7", "+", "-7", "42", "4 2", "18446744073709551615",
        "18446744073709551616", "4294967295", "4294967296", "+4294967296", "٣", "9x", "x9",
    ];
    for text in texts {
        assert_eq!(parse_usize(text), text.parse::<usize>().ok());
    }
}

#[test]
fn is_usize_accepts_numbers() {
    assert_eq!(is_usize(String::from("0")), Ok(()));
    assert_eq!(is_usize(String::from("80")), Ok(()));
    assert_eq!(
        is_usize(String::from("eighty")),
        Err(String::from("Can not parse \"eighty\" as number"))
    );
    assert_eq!(is_usize(String::from("")), Err(String::from("Can not parse \"\" as number")));
    assert_eq!(
        is_usize(String::from("a\"b")),
        Err(String::from("Can not parse \"a\\\"b\" as number"))
    );
}

#[test]
fn is_usize_and_non_null_accepts_numbers_but_zero() {
    assert_eq!(is_usize_and_non_null(String::from("1")), Ok(()));
    assert_eq!(is_usize_and_non_null(String::from("80")), Ok(()));
    assert_eq!(
        is_usize_and_non_null(String::from("0")),
        Err(String::from("Expected input to be > 0, got \"0\""))
    );
    assert_eq!(
        is_usize_and_non_null(String::from("000")),
        Err(String::from("Expected input to be > 0, got \"000\""))
    );
    assert_eq!(
        is_usize_and_non_null(String::from("-3")),
        Err(String::from("Can not parse \"-3\" as number"))
    );
}

#[test]
fn byte_orders_by_name() {
    assert_eq!(Endianess::from_name("big"), Endianess::Big);
    assert_eq!(Endianess::from_name("little"), Endianess::Little);
    assert_eq!(Endianess::from_name("native"), Endianess::Native);
    assert_eq!(Endianess::from_name("Big"), Endianess::Native);
    assert_eq!(Endianess::from_name(""), Endianess::Native);
}

#[test]
fn widths_by_name() {
    assert_eq!(Datatype::from_name("f32"), Datatype::Float);
    assert_eq!(Datatype::from_name("f64"), Datatype::Double);
    assert_eq!(Datatype::from_name("f16"), Datatype::Double);
}

#[test]
fn distributions_by_name() {
    assert_eq!(
        DistributionSpec::from_name("uniform", 10, 1, 0, 5),
        Some(DistributionSpec::Uniform { min: 0, max: 5 })
    );
    assert_eq!(
        DistributionSpec::from_name("normal", 10, 1, 0, 5),
        Some(DistributionSpec::Normal { mean: 10, stddev: 1 })
    );
    assert_eq!(DistributionSpec::from_name("poisson", 10, 1, 0, 5), None);
}
