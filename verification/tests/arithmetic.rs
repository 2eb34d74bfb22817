use vcontrol::arithmetic::{execIExpression, execIFactor, execITerm, nextToken, pushBack, Token};

const BYTES: [u8; 10] = [0x34, 0x12, 0xff, 0, 0, 0, 0, 0, 0, 7];
const PARAMS: [i8; 10] = [3, -1, 0, 0, 0, 0, 0, 0, 0, 0];

fn eval(text: &str) -> (i32, usize, Option<String>) {
    let r = execIExpression(text.as_bytes(), 0, &BYTES, 5, &PARAMS, None);
    (r.value, r.pos, r.err)
}

#[test]
fn tokens_are_read_after_white_space() {
    assert_eq!(nextToken(b"  B7", 0), (Token::Byte(7), 2, 2));
    assert_eq!(nextToken(b"0x1f", 0), (Token::Hex, 2, 0));
    assert_eq!(nextToken(b"<<", 0), (Token::Shl, 2, 0));
    assert_eq!(nextToken(b"<x", 0), (Token::Error, 2, 0));
    assert_eq!(nextToken(b"BP", 0), (Token::BitPos, 2, 0));
    assert_eq!(nextToken(b"P3", 0), (Token::PByte(3), 2, 0));
    assert_eq!(nextToken(b"a", 0), (Token::HexDigit, 1, 0));
    assert_eq!(nextToken(b"~", 0), (Token::Nicht, 1, 0));
    assert_eq!(nextToken(b"x", 0), (Token::Error, 1, 0));
    assert_eq!(nextToken(b"1", 1), (Token::End, 1, 1));
    assert_eq!(nextToken(b"1", 3), (Token::End, 1, 3));
}

#[test]
fn push_back_moves_the_position_back() {
    assert_eq!(pushBack(5, 2), 3);
    assert_eq!(pushBack(2, 2), 0);
}

#[test]
fn bytes_of_the_value_make_a_word() {
    assert_eq!(eval("B1*256+B0"), (0x1234, 9, None));
    assert_eq!(eval("(B1<<8)+B0"), (0, 6, None));
    assert_eq!(eval("B1<<8|B0"), (0x1234, 8, None));
}

#[test]
fn numbers_are_hexadecimal_or_decimal() {
    assert_eq!(eval("0x1f"), (31, 4, None));
    assert_eq!(eval("12"), (12, 2, None));
    assert_eq!(eval("3.5"), (0, 3, None));
    assert_eq!(eval("0xff&0x0f"), (15, 9, None));
}

#[test]
fn signs_and_complement() {
    assert_eq!(eval("-B0"), (-0x34, 3, None));
    assert_eq!(eval("~0"), (-1, 2, None));
    assert_eq!(eval("10-3-2"), (5, 6, None));
    assert_eq!(eval("2+3*4"), (14, 5, None));
}

#[test]
fn division_remainder_and_shifts_go_left_to_right() {
    assert_eq!(eval("7/2"), (3, 3, None));
    assert_eq!(eval("-7/2"), (-3, 4, None));
    assert_eq!(eval("7%3"), (1, 3, None));
    assert_eq!(eval("B2>>4"), (15, 5, None));
    assert_eq!(eval("1<<4"), (16, 4, None));
    assert_eq!(eval("6^3"), (5, 3, None));
}

#[test]
fn bit_position_and_parameter_bytes() {
    assert_eq!(eval("BP"), (5, 2, None));
    assert_eq!(eval("P0+P1"), (3 + 0xff, 5, None));
}

#[test]
fn a_missing_factor_is_an_error() {
    let (value, pos, err) = eval("x");
    assert_eq!(value, 0);
    assert_eq!(pos, 1);
    assert_eq!(err, Some(String::from("expected factor: B0..B9 P0..P9 BP number ( ) [x]\n")));
    let (value, _, err) = eval("1+");
    assert_eq!(value, 0);
    assert!(err.is_some());
}

#[test]
fn term_and_factor_alone() {
    let t = execITerm(b"B9*2+1", 0, &BYTES, 0, &PARAMS, None);
    assert_eq!((t.value, t.pos, t.err), (14, 4, None));
    let f = execIFactor(b"~B9", 0, &BYTES, 0, &PARAMS, None);
    assert_eq!((f.value, f.pos, f.err), (!7, 3, None));
}

#[test]
fn a_bracket_reports_the_error_inside_it() {
    let (value, pos, err) = eval("(x)");
    assert_eq!((value, pos), (0, 3));
    assert_eq!(err, Some(String::from("expected factor: B0..B9 P0..P9 BP number ( ) [x]\n")));
    let (value, pos, err) = eval("(x");
    assert_eq!((value, pos), (0, 3));
    assert_eq!(err, Some(String::from("expected factor:) [\u{0}]\n")));
}
