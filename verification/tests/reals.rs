use double_pendulum::decimal::is_real;

#[test]
fn is_real_takes_decimal_notation() {
    for text in ["0", "1", "125", "0.1", "0.05", "1.5", "10.0", "2.", ".5", "007.500", "+3", "-3",
        "+0.25", "-0.25", "-.5", "+5.", "-0", "000", "3.14159265358979323846264338327950288"]
    {
        assert!(is_real(text), "{:?}", text);
    }
}

#[test]
fn is_real_takes_scientific_notation() {
    for text in ["1e5", "1E5", "1e+5", "1e-5", "1.5e10", "-1.5E-10", ".5e1", "5.e1", "+2e0",
        "1e0005", "1e400", "1e-400", "0e0", "9.99E+99"]
    {
        assert!(is_real(text), "{:?}", text);
    }
}

#[test]
fn is_real_takes_the_names_of_infinity_and_of_no_number() {
    for text in ["inf", "INF", "Inf", "iNf", "infinity", "Infinity", "INFINITY", "inFiNiTy", "nan",
        "NaN", "NAN", "nAn", "+inf", "-inf", "-infinity", "+Infinity", "-nan", "+NaN"]
    {
        assert!(is_real(text), "{:?}", text);
    }
}

#[test]
fn is_real_refuses_what_has_no_digit() {
    for text in ["", "+", "-", ".", "+.", "-.", "e", "E", "e5", ".e5", "-e5", "+.e1", "--", "+-"] {
        assert!(!is_real(text), "{:?}", text);
    }
}

#[test]
fn is_real_refuses_a_broken_exponent() {
    for text in ["1e", "1E", "1e+", "1e-", "1e5.0", "1e5e5", "1e--5", "1e+-5", "1ee5", "1e 5",
        "1e5 ", "1.5e", "1e.5", "1e5f"]
    {
        assert!(!is_real(text), "{:?}", text);
    }
}

#[test]
fn is_real_refuses_a_second_point_or_sign() {
    for text in ["1.2.3", "..1", "1..", "1..2", ".1.", "--1", "++1", "+-1", "-+1", "1-", "1+",
        "1-2", "1.5-"]
    {
        assert!(!is_real(text), "{:?}", text);
    }
}

#[test]
fn is_real_refuses_anything_around_the_number() {
    for text in [" 1", "1 ", " 1 ", "\t1", "1\n", "1_000", "1,5", "1f64", "0x10", "0x1p3", "1d",
        "$1", "1%", "one", "not a number", "\u{0661}", "1\u{0660}", "\u{ff11}", "1\u{e9}",
        "\u{2212}1"]
    {
        assert!(!is_real(text), "{:?}", text);
    }
}

#[test]
fn is_real_refuses_near_misses_of_the_names() {
    for text in ["in", "infi", "infinit", "infinityy", "inff", "na", "nann", "n", "i", "in f",
        "inf ", " nan", "nan0", "0nan", "infinity1", "--inf", "+-nan", "i\u{144}f", "\u{131}nf",
        "\u{130}nf", "na\u{f1}", "infin\u{131}ty", "INFINIT\u{178}"]
    {
        assert!(!is_real(text), "{:?}", text);
    }
}

#[test]
fn is_real_agrees_with_the_standard_library() {
    let samples = [
        "", "+", "-", ".", "0", "1", "-1", "+1", "1.", ".1", "1.1", "1..1", "1e1", "1e", "e1",
        "1e+1", "1e-1", "1e+", "1E1", "1.e1", ".1e1", ".e1", "-.1e-1", "inf", "-inf", "+inf",
        "infinity", "-Infinity", "INFINITY", "infinit", "nan", "NaN", "-nan", "nanx", "1 ", " 1",
        "1_0", "0x1", "1f32", "1e1e1", "1.1.1", "--1", "+-1", "1,0", "\u{0661}", "1e\u{0661}",
        "99999999999999999999999999999999999999999e999999", "0.0000000000000000000000000001",
        "1e+-1", "E", "e", "i", "n", "in", "na", "iNF", "Nan", "nAN", "INFinity", "infinitY",
        "+", "+e", "-E5", "5E", "5e+", "5E-", "5E-0", ".", "-.", "+.e", "..", "0.", ".0", "0.0.",
    ];
    for text in samples {
        assert_eq!(is_real(text), text.parse::<f64>().is_ok(), "{:?}", text);
    }
}

#[test]
fn is_real_agrees_with_the_standard_library_on_all_short_texts() {
    let alphabet = ['0', '7', '.', 'e', 'E', '+', '-', 'i', 'n', 'f', 'a', 'N', ' '];
    let mut texts: Vec<String> = vec![String::new()];
    let mut start = 0;
    for _ in 0..4 {
        let end = texts.len();
        for k in start..end {
            for c in alphabet {
                let mut longer = texts[k].clone();
                longer.push(c);
                texts.push(longer);
            }
        }
        start = end;
    }
    assert_eq!(texts.len(), 1 + 13 + 169 + 2197 + 28561);
    for text in &texts {
        assert_eq!(is_real(text), text.parse::<f64>().is_ok(), "{:?}", text);
    }
}
