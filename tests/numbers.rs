use plotters_dioxus::decimal::Decimal;

fn text_of(d: &Decimal) -> String {
    let mut s = String::new();
    d.write_to(&mut s);
    s
}

#[test]
fn parse_reads_sign_digits_and_fraction() {
    assert_eq!(Decimal::parse("0.5"), Some(Decimal { negative: false, mantissa: 5, scale: 1 }));
    assert_eq!(Decimal::parse("12"), Some(Decimal { negative: false, mantissa: 12, scale: 0 }));
    assert_eq!(Decimal::parse("-0.050"), Some(Decimal { negative: true, mantissa: 50, scale: 3 }));
    assert_eq!(
        Decimal::parse("18446744073709551615"),
        Some(Decimal { negative: false, mantissa: u64::MAX, scale: 0 })
    );
}

#[test]
fn parse_refuses_other_text() {
    for t in ["", "-", ".", "1.", ".5", "1.2.3", "a", "1e5", "+1", "--1", " 1", "18446744073709551616", "1844674407370955161.6"] {
        assert_eq!(Decimal::parse(t), None, "{t}");
    }
}

#[test]
fn text_is_the_shortest_form() {
    assert_eq!(text_of(&Decimal { negative: false, mantissa: 50, scale: 2 }), "0.5");
    assert_eq!(text_of(&Decimal { negative: false, mantissa: 100, scale: 2 }), "1");
    assert_eq!(text_of(&Decimal { negative: false, mantissa: 0, scale: 5 }), "0");
    assert_eq!(text_of(&Decimal { negative: true, mantissa: 0, scale: 0 }), "-0");
    assert_eq!(text_of(&Decimal { negative: false, mantissa: 7, scale: 4 }), "0.0007");
    assert_eq!(text_of(&Decimal { negative: true, mantissa: 12345, scale: 2 }), "-123.45");
    assert_eq!(text_of(&Decimal { negative: false, mantissa: 1, scale: 0 }), "1");
}

#[test]
fn printed_floats_read_back_to_the_same_text() {
    for f in [0.5f64, 1.0, 0.0, 0.1, 0.3, 11.290322580645162, 14.0 / 1.24, 1e-7, 123456.789] {
        let shown = format!("{}", f);
        let d = Decimal::parse(&shown).unwrap();
        assert_eq!(text_of(&d), shown);
        assert_eq!(d.is_zero(), f == 0.0);
    }
}
