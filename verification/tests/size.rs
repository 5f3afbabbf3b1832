use server_info::size::is_size;

fn size(text: &str) -> bool {
    is_size(&text.chars().collect())
}

#[test]
fn numbers_are_told_from_other_text() {
    for text in [
        "3.14", "-3.14", "2.5E10", "2.5e10", "2.5E-10", "5.", ".5", "0.5", "7", "007", "inf",
        "-inf", "+infinity", "NaN", "nan", "INFINITY", "inFinItY", "+NAN", "-nan", "1e5", "1E+5",
        "1.e5", ".5e-3", "+.5", "-5.", "1024", "768", "900", "1280.5", "0", "00.00", "1e0007",
        "123456789012345678901234567890", "1e999", "0.000000000000000000000000000000000000000001",
    ] {
        assert!(size(text), "{:?}", text);
        assert!(text.parse::<f32>().is_ok(), "{:?}", text);
    }
    for text in [
        "", "wide", ".", "+", "-", "e5", "1e", "1e+", "1e-", "+-1", "--1", "1.2.3", "1e5.0",
        " 1", "1 ", "1\n", "768\n", "1_000", "0x10", "1,5", "infinit", "infinityy", "in", "na",
        "nane", "+", "+.", ".e5", "-.e1", "1e5e5", "1f", "1.0f32", "\u{661}", "\u{ff11}",
        "1\u{a0}", "\u{130}nf", "e", "E", "1ee5", "1e++5", "..", "5..", "nan1", "1nan",
    ] {
        assert!(!size(text), "{:?}", text);
        assert!(text.parse::<f32>().is_err(), "{:?}", text);
    }
}

#[test]
fn every_short_text_is_judged_as_the_standard_reader_judges_it() {
    let letters = [
        '0', '1', '9', '.', 'e', 'E', '+', '-', 'i', 'n', 'f', 'a', 'N', 'I', ' ', ',', 'x',
    ];
    let mut texts: Vec<String> = vec![String::new()];
    let mut from = 0;
    for _ in 0..4 {
        let upto = texts.len();
        for at in from..upto {
            for letter in letters {
                let mut longer = texts[at].clone();
                longer.push(letter);
                texts.push(longer);
            }
        }
        from = upto;
    }
    assert_eq!(texts.len(), 1 + 17 + 17 * 17 + 17 * 17 * 17 + 17 * 17 * 17 * 17);
    let mut numbers = 0;
    for text in &texts {
        let expected = text.parse::<f32>().is_ok();
        assert_eq!(size(text), expected, "{:?}", text);
        if expected {
            numbers += 1;
        }
    }
    assert!(numbers > 500);
}

#[test]
fn longer_numbers_are_judged_as_the_standard_reader_judges_them() {
    let parts = [
        "", "+", "-", "12", "0", ".", ".5", "5.", "e", "E", "e+", "e-", "e7", "E-7", "inf",
        "INFINITY", "infinity", "nan", "NaN", " ", "x",
    ];
    for a in parts {
        for b in parts {
            for c in parts {
                for d in parts {
                    let text = format!("{}{}{}{}", a, b, c, d);
                    assert_eq!(size(&text), text.parse::<f32>().is_ok(), "{:?}", text);
                    assert_eq!(size(&text), text.parse::<f64>().is_ok(), "{:?}", text);
                }
            }
        }
    }
}
