use intcode::text::{parse_literal, parse_program};
use intcode::{Int, IntcodeComputer, ParseError, RunResult};

#[test]
fn literals() {
    let cases: [(&str, Option<Int>); 22] = [
        ("0", Some(0)),
        ("7", Some(7)),
        ("-7", Some(-7)),
        ("+7", Some(7)),
        ("007", Some(7)),
        ("-0", Some(0)),
        ("1219070632396864", Some(1_219_070_632_396_864)),
        ("170141183460469231731687303715884105727", Some(Int::MAX)),
        ("-170141183460469231731687303715884105728", Some(Int::MIN)),
        ("+0000170141183460469231731687303715884105727", Some(Int::MAX)),
        ("170141183460469231731687303715884105728", None),
        ("-170141183460469231731687303715884105729", None),
        ("1701411834604692317316873037158841057270", None),
        ("", None),
        ("+", None),
        ("-", None),
        ("--1", None),
        ("1-", None),
        ("1 2", None),
        (" 1", None),
        ("1_000", None),
        ("0x10", None),
    ];
    for (text, expected) in cases {
        assert_eq!(parse_literal(text.as_bytes(), 0, text.len()), expected);
        // The same literals, as the standard library reads them.
        assert_eq!(text.parse::<Int>().ok(), expected);
    }
}

#[test]
fn literal_within_a_text() {
    let text = b"ab-12,34";
    assert_eq!(parse_literal(text, 2, 5), Some(-12));
    assert_eq!(parse_literal(text, 3, 5), Some(12));
    assert_eq!(parse_literal(text, 6, 8), Some(34));
    assert_eq!(parse_literal(text, 2, 6), None);
    assert_eq!(parse_literal(text, 0, 5), None);
    assert_eq!(parse_literal(text, 4, 4), None);
}

#[test]
fn programs() {
    assert_eq!(parse_program(b"1,0,0,0,99"), Ok(vec![1, 0, 0, 0, 99]));
    assert_eq!(parse_program(b"1101,100,-1,4,0"), Ok(vec![1101, 100, -1, 4, 0]));
    assert_eq!(parse_program(b"42"), Ok(vec![42]));
    assert_eq!(parse_program(b"  1, 2 ,\t3\n"), Ok(vec![1, 2, 3]));
    assert_eq!(parse_program(b"\n 1 ,\r\n -2 ,+3 \x0b\x0c"), Ok(vec![1, -2, 3]));
    assert_eq!(
        parse_program(b"104,1125899906842624,99\n"),
        Ok(vec![104, 1_125_899_906_842_624, 99])
    );
}

#[test]
fn bad_programs() {
    assert_eq!(parse_program(b""), Err(ParseError { element: 0 }));
    assert_eq!(parse_program(b"   "), Err(ParseError { element: 0 }));
    assert_eq!(parse_program(b","), Err(ParseError { element: 0 }));
    assert_eq!(parse_program(b"1,"), Err(ParseError { element: 1 }));
    assert_eq!(parse_program(b",1"), Err(ParseError { element: 0 }));
    assert_eq!(parse_program(b"1,,2"), Err(ParseError { element: 1 }));
    assert_eq!(parse_program(b"1,2,x"), Err(ParseError { element: 2 }));
    assert_eq!(parse_program(b"1,2 3,4"), Err(ParseError { element: 1 }));
    assert_eq!(parse_program(b"1,a,b"), Err(ParseError { element: 1 }));
    assert_eq!(parse_program(b"1;2"), Err(ParseError { element: 0 }));
    assert_eq!(parse_program(b"1,- 2"), Err(ParseError { element: 1 }));
    assert_eq!(
        parse_program(b"1,170141183460469231731687303715884105728"),
        Err(ParseError { element: 1 })
    );
    // A byte beyond ASCII is no white space and no digit.
    assert_eq!(parse_program("1,\u{a0}2".as_bytes()), Err(ParseError { element: 1 }));
}

#[test]
fn computer_from_text() {
    let mut comp = IntcodeComputer::from_text(" 1101, 20,22 ,0,4,0,99 \n").unwrap();
    assert_eq!(comp.read_at(0), 1101);
    assert_eq!(comp.read_at(6), 99);
    assert_eq!(comp.read_at(7), 0);
    assert_eq!(comp.run(), RunResult::Output(42));
    assert_eq!(comp.run(), RunResult::Finished);

    assert_eq!(IntcodeComputer::from_text("1,two,3").err(), Some(ParseError { element: 1 }));
    assert_eq!(IntcodeComputer::from_text("").err(), Some(ParseError { element: 0 }));
}
