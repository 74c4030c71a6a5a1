use linux_fan_utility::text::{
    chars_of, is_whitespace_char, parse_i64, parse_u32, parse_u8, parse_unsigned, push_decimal,
    sorted_order, str_before, to_decimal, trim,
};

const SAMPLES: [&str; 44] = [
    "",
    "0",
    "7",
    "42",
    "255",
    "256",
    "0255",
    "000",
    "+5",
    "+255",
    "+256",
    "-5",
    "-0",
    "+0",
    "+",
    "-",
    "++1",
    "--1",
    "+-1",
    "1+",
    " 1",
    "1 ",
    "1_000",
    "12a",
    "a12",
    "0x10",
    "1.5",
    "4294967295",
    "4294967296",
    "+4294967295",
    "9223372036854775807",
    "9223372036854775808",
    "-9223372036854775808",
    "-9223372036854775809",
    "18446744073709551615",
    "18446744073709551616",
    "99999999999999999999999999",
    "-99999999999999999999999999",
    "٣",
    "１２",
    "12\n",
    "\t12",
    "-00012",
    "45000",
];

#[test]
fn to_decimal_writes_numerals() {
    assert_eq!(to_decimal(0), "0");
    assert_eq!(to_decimal(7), "7");
    assert_eq!(to_decimal(10), "10");
    assert_eq!(to_decimal(255), "255");
    assert_eq!(to_decimal(1_000_000), "1000000");
    assert_eq!(to_decimal(u64::MAX), "18446744073709551615");
    for n in 0..2000u64 {
        assert_eq!(to_decimal(n), n.to_string());
    }
}

#[test]
fn push_decimal_appends() {
    let mut out = "pwm ".to_string();
    push_decimal(&mut out, 128);
    assert_eq!(out, "pwm 128");
    push_decimal(&mut out, 0);
    assert_eq!(out, "pwm 1280");
}

#[test]
fn chars_of_lists_characters() {
    assert_eq!(chars_of(""), Vec::<char>::new());
    assert_eq!(chars_of("a°c"), vec!['a', '°', 'c']);
}

#[test]
fn parse_u8_agrees_with_std() {
    for s in SAMPLES {
        assert_eq!(parse_u8(s), s.parse::<u8>().ok(), "{s:?}");
    }
    for n in 0..=300u32 {
        let s = n.to_string();
        assert_eq!(parse_u8(&s), s.parse::<u8>().ok());
    }
    assert_eq!(parse_u8("128"), Some(128));
    assert_eq!(parse_u8("+7"), Some(7));
    assert_eq!(parse_u8("256"), None);
    assert_eq!(parse_u8("-1"), None);
    assert_eq!(parse_u8(""), None);
}

#[test]
fn parse_u32_agrees_with_std() {
    for s in SAMPLES {
        assert_eq!(parse_u32(s), s.parse::<u32>().ok(), "{s:?}");
    }
    assert_eq!(parse_u32("1350"), Some(1350));
    assert_eq!(parse_u32("4294967295"), Some(u32::MAX));
    assert_eq!(parse_u32("4294967296"), None);
}

#[test]
fn parse_i64_agrees_with_std() {
    for s in SAMPLES {
        assert_eq!(parse_i64(s), s.parse::<i64>().ok(), "{s:?}");
    }
    assert_eq!(parse_i64("45000"), Some(45_000));
    assert_eq!(parse_i64("-5000"), Some(-5_000));
    assert_eq!(parse_i64("-9223372036854775808"), Some(i64::MIN));
    assert_eq!(parse_i64("9223372036854775807"), Some(i64::MAX));
    assert_eq!(parse_i64("9223372036854775808"), None);
    assert_eq!(parse_i64("-"), None);
}

#[test]
fn parse_unsigned_respects_the_limit() {
    for s in SAMPLES {
        assert_eq!(parse_unsigned(s, u64::MAX), s.parse::<u64>().ok(), "{s:?}");
        assert_eq!(parse_unsigned(s, 65_535), s.parse::<u16>().ok().map(u64::from), "{s:?}");
    }
    assert_eq!(parse_unsigned("0", 0), Some(0));
    assert_eq!(parse_unsigned("1", 0), None);
    assert_eq!(parse_unsigned("9", 5), None);
    assert_eq!(parse_unsigned("18446744073709551615", u64::MAX), Some(u64::MAX));
}

#[test]
fn whitespace_is_the_unicode_property() {
    for code in 0..=0x10ffffu32 {
        if let Some(c) = char::from_u32(code) {
            assert_eq!(is_whitespace_char(c), c.is_whitespace(), "U+{code:04X}");
        }
    }
}

#[test]
fn trim_agrees_with_std() {
    let samples = [
        "",
        " ",
        "\n",
        " \t\r\n ",
        "128\n",
        "  128",
        "128",
        " 1 2 ",
        "\u{a0}x\u{3000}",
        "\u{2003}{\"type\":\"get_status\"}\r\n",
        "a\u{85}",
        "\u{feff}a",
        "\u{200b}a ",
        " é ",
    ];
    for s in samples {
        assert_eq!(trim(s), s.trim(), "{s:?}");
    }
    assert_eq!(trim("  45000\n"), "45000");
    assert_eq!(trim(" \n"), "");
}

const WORDS: [&str; 16] = [
    "",
    "a",
    "b",
    "ab",
    "aa",
    "abc",
    "hwmon10/pwm1",
    "hwmon2/pwm1",
    "hwmon2/pwm10",
    "hwmon2/pwm2",
    "Z",
    "z",
    "é",
    "e",
    "\u{10000}",
    "\u{ffff}",
];

#[test]
fn str_before_is_the_order_of_strings() {
    for a in WORDS {
        for b in WORDS {
            assert_eq!(str_before(a, b), a < b, "{a:?} {b:?}");
        }
    }
    assert!(str_before("hwmon10/pwm1", "hwmon2/pwm1"));
    assert!(str_before("a", "ab"));
    assert!(!str_before("ab", "a"));
    assert!(!str_before("a", "a"));
}

#[test]
fn sorted_order_is_a_stable_sort() {
    let names: Vec<String> = ["b", "a", "c", "a", "", "b", "a"].iter().map(|s| s.to_string()).collect();
    assert_eq!(sorted_order(&names), vec![4, 1, 3, 6, 0, 5, 2]);
    assert_eq!(sorted_order(&Vec::new()), Vec::<usize>::new());
    let mut seed = 99u64;
    for len in 0..30usize {
        let mut names = Vec::new();
        for _ in 0..len {
            seed = seed.wrapping_mul(6364136223846793005).wrapping_add(1442695040888963407);
            names.push(WORDS[(seed >> 40) as usize % WORDS.len()].to_string());
        }
        let mut expected: Vec<usize> = (0..len).collect();
        expected.sort_by(|&i, &j| names[i].cmp(&names[j]));
        assert_eq!(sorted_order(&names), expected);
    }
}
