use oxish::text::{
    can_start_text, chars_of, is_control, is_white, leading_digits, lines, next_word, parse_u8, same_bytes,
    same_text, split, split_once, strip_prefix, trim,
};

#[test]
fn white_space_is_that_of_std() {
    for c in '\0'..=char::MAX {
        assert_eq!(is_white(c), c.is_whitespace(), "{:?}", c);
    }
}

#[test]
fn control_characters_are_those_of_std() {
    for c in '\0'..=char::MAX {
        assert_eq!(is_control(c), c.is_control(), "{:?}", c);
    }
}

const SAMPLES: [&str; 14] = [
    "",
    "a",
    " a b ",
    "a,b,,c",
    ",",
    "one\ntwo\r\nthree",
    "\n\n",
    "trailing\r",
    "trailing\n",
    "\r\n",
    "\u{a0}x\u{3000}y\u{2003}",
    "caf\u{e9},\u{1f980}",
    "ssh-ed25519\tAAAA comment",
    "SSH-2.0-x\r\n",
];

#[test]
fn lines_are_those_of_std() {
    for s in SAMPLES {
        assert_eq!(lines(s), s.lines().collect::<Vec<_>>(), "{:?}", s);
    }
}

#[test]
fn splits_are_those_of_std() {
    for s in SAMPLES {
        assert_eq!(split(s, ','), s.split(',').collect::<Vec<_>>(), "{:?}", s);
        assert_eq!(split_once(s, ','), s.split_once(','), "{:?}", s);
        assert_eq!(strip_prefix(s, "a"), s.strip_prefix("a"), "{:?}", s);
        assert_eq!(trim(s), s.trim(), "{:?}", s);
        assert_eq!(chars_of(s), s.chars().collect::<Vec<_>>(), "{:?}", s);
        assert_eq!(
            next_word(s).map(|(word, _)| word),
            s.split_whitespace().next(),
            "{:?}",
            s
        );
    }
    assert_eq!(next_word(" a  b c"), Some(("a", "  b c")));
}

#[test]
fn numbers_are_those_of_std() {
    for s in [
        "", "0", "9", "+9", "-9", "-0", "+", "-", "255", "256", "0255", "00000000000009", "1a", " 1",
        "99999999999999999999999999", "+-1",
    ] {
        assert_eq!(parse_u8(s), s.parse::<u8>().ok(), "{:?}", s);
    }
    assert_eq!(leading_digits("98p1"), "98");
    assert_eq!(leading_digits("p1"), "");
    assert_eq!(leading_digits("12"), "12");
}

#[test]
fn equality_of_texts() {
    assert!(same_bytes(b"abc", b"abc"));
    assert!(!same_bytes(b"abc", b"abd"));
    assert!(!same_bytes(b"abc", b"ab"));
    assert!(same_text("caf\u{e9}", "caf\u{e9}"));
    assert!(!same_text("cafe", "caf\u{e9}"));
    assert!(!same_text("", "a"));
}

#[test]
fn starts_of_texts_are_those_of_std() {
    let mut cases: Vec<Vec<u8>> = Vec::new();
    for a in 0..=u8::MAX {
        cases.push(vec![a]);
        for b in 0..=u8::MAX {
            cases.push(vec![a, b]);
            for c in [0x00, 0x7f, 0x80, 0x9f, 0xa0, 0xbf, 0xc0, 0xff] {
                cases.push(vec![a, b, c]);
                cases.push(vec![a, b, c, 0x80]);
                cases.push(vec![b'x', a, b, c]);
            }
        }
    }
    for case in cases {
        let expected = match std::str::from_utf8(&case) {
            Ok(_) => true,
            Err(error) => error.error_len().is_none(),
        };
        assert_eq!(can_start_text(&case), expected, "{:?}", case);
    }
}
