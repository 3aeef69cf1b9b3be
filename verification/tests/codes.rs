use barcodes::ean13::{EAN13, EAN13ParseError};
use barcodes::plu::{PLU, PLUParseError};
use barcodes::upc::{UPC, UPCParseError};

#[test]
fn it_works() {
    assert_eq!(2 + 2, 4);
}

#[test]
fn upc_valid_round_trip() {
    let u = UPC::new("036000291452").unwrap();
    assert_eq!(u.check_digit(), 2);
    assert_eq!(u.render(), "036000291452");
}

#[test]
fn upc_second_valid_round_trip() {
    let u = UPC::new("123456789012").unwrap();
    assert_eq!(u.check_digit(), 2);
    assert_eq!(u.render(), "123456789012");
}

#[test]
fn upc_short_input_is_length_error() {
    assert_eq!(UPC::new("12345"), Err(UPCParseError::Length(5)));
}

#[test]
fn upc_empty_and_long_inputs_are_length_errors() {
    assert_eq!(UPC::new(""), Err(UPCParseError::Length(0)));
    assert_eq!(UPC::new("0360002914521"), Err(UPCParseError::Length(13)));
}

#[test]
fn upc_non_digit_is_parse_error() {
    assert_eq!(UPC::new("03600029145a"), Err(UPCParseError::Parse));
    assert_eq!(UPC::new("+36000291452"), Err(UPCParseError::Parse));
}

#[test]
fn upc_wrong_check_digit_reports_both_digits() {
    assert_eq!(UPC::new("036000291453"), Err(UPCParseError::CheckDigit(2, 3)));
}

#[test]
fn upc_equality_is_structural() {
    let a = UPC::new("036000291452").unwrap();
    let b = UPC::new("036000291452").unwrap();
    let c = UPC::new("123456789012").unwrap();
    assert_eq!(a, b);
    assert!(a != c);
    assert!(a < c);
}

#[test]
fn ean13_valid_code_and_check_digit() {
    let e = EAN13::new("4006381333931").unwrap();
    assert_eq!(e.check_digit(), 1);
    assert_eq!(e.render(), "4006381333931");
}

#[test]
fn ean13_length_errors() {
    assert_eq!(EAN13::new("123"), Err(EAN13ParseError::Length(3)));
    assert_eq!(EAN13::new("40063813339311"), Err(EAN13ParseError::Length(14)));
}

#[test]
fn ean13_non_digit_is_parse_error() {
    assert_eq!(EAN13::new("40063813339x1"), Err(EAN13ParseError::Parse));
}

#[test]
fn ean13_wrong_check_digit_reports_both_digits() {
    assert_eq!(EAN13::new("4006381333930"), Err(EAN13ParseError::CheckDigit(1, 0)));
}

#[test]
fn ean13_accepts_upc_body_behind_leading_zero() {
    // The two weightings are complementary: a valid UPC, read as 13 digits
    // with a leading zero, passes the EAN-13 check as well.
    let e = EAN13::new("0036000291452").unwrap();
    assert_eq!(e.check_digit(), 2);
    let f = EAN13::new("0123456789012").unwrap();
    assert_eq!(f.check_digit(), 2);
}

#[test]
fn ean13_from_upc_prepends_zero() {
    let u = UPC::new("036000291452").unwrap();
    let upc_rendering = u.render();
    let upc_check = u.check_digit();
    let e = EAN13::from(u);
    let rendering = e.render();
    assert_eq!(rendering, "0036000291452");
    assert_eq!(&rendering[0..1], "0");
    assert_eq!(&rendering[1..13], upc_rendering.as_str());
    assert_eq!(e.check_digit(), upc_check);
}

#[test]
fn plu_four_digit_round_trip() {
    let p = PLU::new("4011").unwrap();
    assert_eq!(p.render(), "4011");
}

#[test]
fn plu_five_digit_accepted_but_rendered_at_width_four() {
    let p = PLU::new("94011").unwrap();
    assert_eq!(p.render(), "4011");
}

#[test]
fn plu_length_errors() {
    assert_eq!(PLU::new("401"), Err(PLUParseError::Length(3)));
    assert_eq!(PLU::new("123456"), Err(PLUParseError::Length(6)));
}

#[test]
fn plu_non_digit_is_parse_error() {
    assert_eq!(PLU::new("40a1"), Err(PLUParseError::Parse));
    assert_eq!(PLU::new("4011x"), Err(PLUParseError::Parse));
}

#[test]
fn plu_leading_zeros_kept() {
    let p = PLU::new("0001").unwrap();
    assert_eq!(p.render(), "0001");
}
