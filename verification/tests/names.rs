use vicis::error::{Error, Reason};
use vicis::ir::function::instruction::OperandKind;
use vicis::ir::module::name::parser::{parse, spaces, ParseError};
use vicis::ir::module::name::{parse as parse_name, Name};
use vicis::text::{decimal_string, digit_char, push_decimal, push_signed};

#[test]
fn a_number_is_read_in_decimal() {
    assert_eq!(parse(b"0"), Ok((1, Name::Number(0))));
    assert_eq!(parse(b"42"), Ok((2, Name::Number(42))));
    assert_eq!(parse(b"007 "), Ok((3, Name::Number(7))));
    assert_eq!(parse(b"12ab"), Ok((2, Name::Number(12))));
    assert_eq!(parse(b"3 = "), Ok((1, Name::Number(3))));
    assert_eq!(
        parse(usize::MAX.to_string().as_bytes()),
        Ok((usize::MAX.to_string().len(), Name::Number(usize::MAX)))
    );
}

#[test]
fn an_identifier_is_letters_and_digits() {
    assert_eq!(parse(b"x"), Ok((1, Name::Name("x".to_string()))));
    assert_eq!(parse(b"argv2 rest"), Ok((5, Name::Name("argv2".to_string()))));
    assert_eq!(parse(b"Main.part"), Ok((4, Name::Name("Main".to_string()))));
    assert_eq!(parse(b"a_b"), Ok((1, Name::Name("a".to_string()))));
    assert_eq!(parse_name(b"zZ09,"), Ok((4, Name::Name("zZ09".to_string()))));
}

#[test]
fn blank_space_and_comments_before_a_name_are_skipped() {
    assert_eq!(parse(b"  \t\r\n 5"), Ok((7, Name::Number(5))));
    assert_eq!(parse(b"; a comment\nname"), Ok((16, Name::Name("name".to_string()))));
    assert_eq!(
        parse(b" ; one\n\t; two 2\n  x1 ; three"),
        Ok((20, Name::Name("x1".to_string())))
    );
    assert_eq!(spaces(b""), 0);
    assert_eq!(spaces(b"abc"), 0);
    assert_eq!(spaces(b"   abc"), 3);
    assert_eq!(spaces(b" ; to the end"), 13);
    assert_eq!(spaces(b";\n;\n\n"), 5);
    assert_eq!(spaces(b"; x\ny ; z"), 4);
}

#[test]
fn a_text_that_starts_with_neither_is_not_a_name() {
    for source in [&b""[..], b"   ", b"; only a comment", b"%x", b"_a", b"-1", b"\"s\"", b"\xc3\xa9"] {
        assert_eq!(parse(source), Err(ParseError::Expected));
    }
}

#[test]
fn a_number_that_does_not_fit_is_rejected() {
    let mut digits = usize::MAX.to_string().into_bytes();
    let last = digits.len() - 1;
    digits[last] += 1;
    assert_eq!(parse(&digits), Err(ParseError::Overflow));
    assert_eq!(parse(b"99999999999999999999999999999999"), Err(ParseError::Overflow));
    assert_eq!(parse(b" 000000000000000000000000000000001"), Ok((34, Name::Number(1))));
}

#[test]
fn names_are_written_as_they_were_read() {
    assert_eq!(Name::Number(0).to_string(), "0");
    assert_eq!(Name::Number(1203).to_string(), "1203");
    assert_eq!(Name::Name("entry".to_string()).to_string(), "entry");
    assert_eq!(Name::Number(17).debug_string(), "Number(17)");
    assert_eq!(Name::Name("entry".to_string()).debug_string(), "Name(\"entry\")");
    assert_eq!(Name::Name("a\\b\n".to_string()).debug_string(), "Name(\"a\\\\b\\n\")");
}

#[test]
fn numbers_are_written_in_decimal() {
    assert_eq!(decimal_string(0), "0");
    assert_eq!(decimal_string(9), "9");
    assert_eq!(decimal_string(10), "10");
    assert_eq!(decimal_string(90817), "90817");
    assert_eq!(decimal_string(usize::MAX), usize::MAX.to_string());
    for d in 0..10u8 {
        assert_eq!(digit_char(d), (b'0' + d) as char);
    }
    let mut text = "n = ".to_string();
    push_decimal(&mut text, 305);
    text.push_str(", i = ");
    push_signed(&mut text, -305);
    text.push(' ');
    push_signed(&mut text, i32::MIN);
    text.push(' ');
    push_signed(&mut text, i32::MAX);
    text.push(' ');
    push_signed(&mut text, 0);
    assert_eq!(text, "n = 305, i = -305 -2147483648 2147483647 0");
}

#[test]
fn every_reason_has_a_message() {
    let table = [
        (Reason::Detached, "instruction without id"),
        (Reason::NoRule, "unimplemented"),
        (Reason::Operation, "integer operation"),
        (Reason::UnknownValue, "unknown value"),
        (Reason::UnknownInstruction, "unknown instruction"),
        (Reason::UnknownBlock, "unknown block"),
        (Reason::Operand, "convert value"),
        (Reason::RetVoid, "ret void"),
    ];
    for (reason, message) in table {
        assert_eq!(reason.message(), message);
        let error = Error::Todo { inst: None, kind: OperandKind::Invalid, reason };
        assert_eq!(error.reason(), reason);
        assert_eq!(error.to_string(), format!("Todo({})", message));
    }
    for reason in [
        Reason::Address,
        Reason::Type,
        Reason::Condition,
        Reason::Predicate,
        Reason::Unavailable,
    ] {
        assert!(!reason.message().is_empty());
    }
}
