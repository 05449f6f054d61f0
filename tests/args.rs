use pineappl::args::{
    pdf_label, pdf_name, pdf_pdg_id, set_name, split_pdfset, try_parse_integer_range,
    validate_pos_non_zero, ArgError,
};
use pineappl::text::{is_whitespace, parse_i32, parse_unsigned, split_whitespace};

#[test]
fn pdf_labels_and_names() {
    assert_eq!(pdf_label("NNPDF31_nlo_as_0118_luxqed"), "NNPDF31_nlo_as_0118_luxqed");
    assert_eq!(pdf_label("NNPDF31_nlo_as_0118_luxqed/1=other mc=1.4"), "other mc=1.4");
    assert_eq!(pdf_name("NNPDF31_nlo_as_0118_luxqed/1=other mc=1.4"), "NNPDF31_nlo_as_0118_luxqed/1");
    assert_eq!(pdf_name("324900=NNPDF31_nlo_as_0118_luxqed"), "324900");
    assert_eq!(pdf_label("324900=NNPDF31_nlo_as_0118_luxqed"), "NNPDF31_nlo_as_0118_luxqed");
    assert_eq!(pdf_label(""), "");
    assert_eq!(pdf_label("a="), "");
}

#[test]
fn pdfset_members() {
    assert_eq!(split_pdfset("NNPDF31_nlo_as_0118_luxqed"), Some(("NNPDF31_nlo_as_0118_luxqed", None)));
    assert_eq!(split_pdfset("NNPDF31_nlo_as_0118_luxqed/2"), Some(("NNPDF31_nlo_as_0118_luxqed", Some(2))));
    assert_eq!(split_pdfset("NNPDF31_nlo_as_0118_luxqed/1=label"), Some(("NNPDF31_nlo_as_0118_luxqed", Some(1))));
    assert_eq!(
        split_pdfset("NNPDF31_nlo_as_0118_luxqed/1=other mc=1.4"),
        Some(("NNPDF31_nlo_as_0118_luxqed", Some(1)))
    );
    assert_eq!(split_pdfset("set/x"), None);
    assert_eq!(set_name("NNPDF31_nlo_as_0118_luxqed/1=other"), "NNPDF31_nlo_as_0118_luxqed");
    assert_eq!(set_name("a/b/c"), "a");
    assert_eq!(set_name("NNPDF31_nlo_as_0118_luxqed/1=other mc=1.4"), "NNPDF31_nlo_as_0118_luxqed");
}

#[test]
fn integer_ranges() {
    assert_eq!(try_parse_integer_range("5-7").unwrap(), 5..=7);
    assert_eq!(try_parse_integer_range("3").unwrap(), 3..=3);
    assert_eq!(try_parse_integer_range("+3").unwrap(), 3..=3);
    assert_eq!(try_parse_integer_range("0-0").unwrap(), 0..=0);
    match try_parse_integer_range("x-7") {
        Err(ArgError::NotAnInteger(p)) => assert_eq!(p, "x"),
        _ => panic!("expected an error"),
    }
    match try_parse_integer_range("1-") {
        Err(ArgError::NotAnInteger(p)) => assert_eq!(p, ""),
        _ => panic!("expected an error"),
    }
    match try_parse_integer_range("1-2-3") {
        Err(ArgError::NotAnInteger(p)) => assert_eq!(p, "2-3"),
        _ => panic!("expected an error"),
    }
    assert!(try_parse_integer_range("").is_err());
    assert!(try_parse_integer_range("18446744073709551616").is_err());
    assert_eq!(
        try_parse_integer_range("18446744073709551615").unwrap(),
        18446744073709551615..=18446744073709551615
    );
}

#[test]
fn positive_counts() {
    assert_eq!(validate_pos_non_zero("4"), Ok(()));
    assert_eq!(
        validate_pos_non_zero("0"),
        Err("The value `0` is not positive and non-zero".to_string())
    );
    assert_eq!(
        validate_pos_non_zero("-1"),
        Err("The value `-1` is not positive and non-zero".to_string())
    );
    assert_eq!(
        validate_pos_non_zero("abc"),
        Err("The value `abc` is not positive and non-zero".to_string())
    );
}

#[test]
fn signed_integers() {
    assert_eq!(parse_i32("324900"), Some(324900));
    assert_eq!(parse_i32("-2212"), Some(-2212));
    assert_eq!(parse_i32("+7"), Some(7));
    assert_eq!(parse_i32("2147483647"), Some(i32::MAX));
    assert_eq!(parse_i32("-2147483648"), Some(i32::MIN));
    assert_eq!(parse_i32("2147483648"), None);
    assert_eq!(parse_i32("-2147483649"), None);
    assert_eq!(parse_i32("-"), None);
    assert_eq!(parse_i32("-+1"), None);
    assert_eq!(parse_i32(""), None);
    assert_eq!(parse_i32("NNPDF31_nlo_as_0118_luxqed"), None);
}

#[test]
fn unsigned_integers() {
    assert_eq!(parse_unsigned("65535", 65535), Some(65535));
    assert_eq!(parse_unsigned("65536", 65535), None);
    assert_eq!(parse_unsigned("007", 10), Some(7));
    assert_eq!(parse_unsigned("+", 10), None);
    assert_eq!(parse_unsigned("1 2", 100), None);
}

#[test]
fn particle_of_pdf_set() {
    assert_eq!(pdf_pdg_id(None), Some(2212));
    assert_eq!(pdf_pdg_id(Some("-2212")), Some(-2212));
    assert_eq!(pdf_pdg_id(Some("proton")), None);
}

#[test]
fn words_of_a_line() {
    assert_eq!(split_whitespace("  0 1\t 1 \n"), vec!["0", "1", "1"]);
    assert_eq!(split_whitespace(""), Vec::<&str>::new());
    assert_eq!(split_whitespace("   "), Vec::<&str>::new());
    assert_eq!(split_whitespace("abc"), vec!["abc"]);
}

#[test]
fn white_space_agrees_with_char() {
    for u in 0..0x3100u32 {
        if let Some(c) = char::from_u32(u) {
            assert_eq!(is_whitespace(c), c.is_whitespace(), "{u:#x}");
        }
    }
    assert_eq!(split_whitespace("1\u{3000}2\u{a0}3"), vec!["1", "2", "3"]);
}
