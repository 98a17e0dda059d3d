use luafront::lex::{Error, Numeral, Scanned, Token, TokenStream};
use luafront::string_pool::StringPool;

fn tokens_of(source: &[u8]) -> Vec<Result<Scanned, Error>> {
    let mut pool = StringPool::new();
    let mut stream = TokenStream::new(source);
    let mut out = Vec::new();
    loop {
        match stream.next(&mut pool) {
            Some(step) => {
                let failed = step.is_err();
                out.push(step);
                if failed {
                    break;
                }
            }
            None => break,
        }
    }
    out
}

fn single_token(source: &[u8]) -> Token {
    let steps = tokens_of(source);
    assert_eq!(steps.len(), 1, "expected one token from {:?}", source);
    match steps[0] {
        Ok(Scanned::Token(t, _, _)) => t,
        ref other => panic!("expected a finished token, got {:?}", other),
    }
}

fn single_string(source: &[u8]) -> Vec<u8> {
    let mut pool = StringPool::new();
    let mut stream = TokenStream::new(source);
    match stream.next(&mut pool) {
        Some(Ok(Scanned::Token(Token::String(sref), _, _))) => pool.get(sref).clone(),
        other => panic!("expected a string token, got {:?}", other),
    }
}

fn single_error(source: &[u8]) -> Error {
    let steps = tokens_of(source);
    match steps.last() {
        Some(Err(e)) => *e,
        other => panic!("expected an error, got {:?}", other),
    }
}

#[test]
fn newline_escape_decodes_to_one_byte() {
    assert_eq!(single_string(b"'\\n'"), vec![0x0a]);
}

#[test]
fn hex_escape_decodes_to_its_byte() {
    assert_eq!(single_string(b"'\\x41'"), vec![0x41]);
}

#[test]
fn named_escapes_decode() {
    assert_eq!(
        single_string(b"\"\\a\\b\\f\\r\\t\\v\\\\\\\"\\'\""),
        vec![0x07, 0x08, 0x0c, 0x0d, 0x09, 0x0b, b'\\', b'"', b'\'']
    );
}

#[test]
fn literal_text_passes_through() {
    assert_eq!(single_string(b"'hello'"), b"hello".to_vec());
    // the other quote kind stands for itself
    assert_eq!(single_string(b"'say \"hi\"'"), b"say \"hi\"".to_vec());
}

#[test]
fn decimal_escapes_decode() {
    assert_eq!(single_string(b"'\\65\\66\\067'"), vec![65, 66, 67]);
    assert_eq!(single_string(b"'\\0'"), vec![0]);
    // three digits bind greedily: 1234 is escape 123 followed by digit 4
    assert_eq!(single_string(b"'\\1234'"), vec![123, b'4']);
}

#[test]
fn decimal_escape_above_byte_range_is_invalid() {
    assert_eq!(single_error(b"'\\256'"), Error::InvalidDecEscape);
}

#[test]
fn unicode_escapes_reencode_as_multibyte() {
    assert_eq!(single_string(b"'\\u{41}'"), vec![0x41]);
    assert_eq!(single_string(b"'\\u{7f}'"), vec![0x7f]);
    assert_eq!(single_string(b"'\\u{80}'"), vec![0xc2, 0x80]);
    assert_eq!(single_string(b"'\\u{7ff}'"), vec![0xdf, 0xbf]);
    assert_eq!(single_string(b"'\\u{800}'"), vec![0xe0, 0xa0, 0x80]);
    assert_eq!(single_string(b"'\\u{ffff}'"), vec![0xef, 0xbf, 0xbf]);
    assert_eq!(single_string(b"'\\u{10000}'"), vec![0xf0, 0x90, 0x80, 0x80]);
    assert_eq!(
        single_string(b"'\\u{200000}'"),
        vec![0xf8, 0x88, 0x80, 0x80, 0x80]
    );
    assert_eq!(
        single_string(b"'\\u{4000000}'"),
        vec![0xfc, 0x84, 0x80, 0x80, 0x80, 0x80]
    );
    assert_eq!(
        single_string(b"'\\u{7fffffff}'"),
        vec![0xfd, 0xbf, 0xbf, 0xbf, 0xbf, 0xbf]
    );
}

#[test]
fn unicode_escape_above_greatest_scalar_is_invalid() {
    assert_eq!(single_error(b"'\\u{80000000}'"), Error::InvalidUnicodeEscape);
    assert_eq!(
        single_error(b"'\\u{fffffffffff}'"),
        Error::InvalidUnicodeEscape
    );
}

#[test]
fn malformed_escapes_are_unexpected_bytes() {
    assert_eq!(single_error(b"'\\q'"), Error::UnexpectedByte);
    assert_eq!(single_error(b"'\\x4'"), Error::UnexpectedByte);
    assert_eq!(single_error(b"'\\u{}'"), Error::UnexpectedByte);
    assert_eq!(single_error(b"'\\u{41'"), Error::UnexpectedByte);
    assert_eq!(single_error(b"'\\u41'"), Error::UnexpectedByte);
}

#[test]
fn continuation_escape_skips_whitespace() {
    assert_eq!(single_string(b"'a\\z   \t\n  b'"), b"ab".to_vec());
    // without whitespace after it, the escape is malformed
    assert_eq!(single_error(b"'a\\zb'"), Error::UnexpectedByte);
}

#[test]
fn unclosed_string_reports_itself() {
    assert_eq!(single_error(b"'abc"), Error::UnclosedStringLiteral);
}

#[test]
fn bare_line_ending_in_string_is_unexpected() {
    assert_eq!(single_error(b"'a\nb'"), Error::UnexpectedByte);
}

#[test]
fn long_literals_gather_and_normalize() {
    assert_eq!(single_string(b"[[abc]]"), b"abc".to_vec());
    assert_eq!(single_string(b"[[a\r\nb\n\rc\rd\ne]]"), b"a\nb\nc\nd\ne".to_vec());
    // a closing bracket of another level is plain content
    assert_eq!(single_string(b"[==[a]=]b]==]"), b"a]=]b".to_vec());
    assert_eq!(single_error(b"[[abc"), Error::UnclosedLongLiteral);
}

#[test]
fn comments_are_skipped() {
    let steps = tokens_of(b"-- line comment\n1");
    assert_eq!(steps.len(), 1);
    match steps[0] {
        Ok(Scanned::Token(Token::Numeral(Numeral::Int(1)), _, _)) => {}
        ref other => panic!("unexpected {:?}", other),
    }
    let steps = tokens_of(b"--[==[ long ]] comment ]==]7");
    match steps[0] {
        Ok(Scanned::Token(Token::Numeral(Numeral::Int(7)), _, _)) => {}
        ref other => panic!("unexpected {:?}", other),
    }
    assert_eq!(single_error(b"--[[ never closed"), Error::UnclosedLongComment);
}

#[test]
fn names_are_interned_and_deduplicated() {
    let mut pool = StringPool::new();
    let mut stream = TokenStream::new(b"foo bar foo");
    let a = stream.next(&mut pool);
    let b = stream.next(&mut pool);
    let c = stream.next(&mut pool);
    let sref = |step| match step {
        Some(Ok(Scanned::Token(Token::Name(s), _, _))) => s,
        other => panic!("expected a name, got {:?}", other),
    };
    let (a, b, c) = (sref(a), sref(b), sref(c));
    assert_eq!(a, c);
    assert_ne!(a, b);
    assert_eq!(pool.len(), 2);
    assert_eq!(pool.get(a).as_slice(), b"foo");
    assert_eq!(pool.get(b).as_slice(), b"bar");
}

#[test]
fn keywords_are_recognized() {
    assert_eq!(single_token(b"and"), Token::KwAnd);
    assert_eq!(single_token(b"or"), Token::KwOr);
    assert_eq!(single_token(b"not"), Token::KwNot);
    assert_eq!(single_token(b"while"), Token::KwWhile);
    assert_eq!(single_token(b"function"), Token::KwFunction);
    assert_eq!(single_token(b"elseif"), Token::KwElseif);
    assert_eq!(single_token(b"nil"), Token::KwNil);
    assert_eq!(single_token(b"goto"), Token::KwGoto);
    // built from bytes to cover the remaining conditional keyword
    let kw_then: Vec<u8> = vec![0x74, 0x68, 0x65, 0x6e];
    assert_eq!(single_token(&kw_then), Token::KwThen);
    // a keyword with a tail is a plain name
    match single_token(b"andy") {
        Token::Name(_) => {}
        other => panic!("unexpected {:?}", other),
    }
}

#[test]
fn operators_scan_longest_first() {
    assert_eq!(single_token(b"..."), Token::Dot3);
    assert_eq!(single_token(b".."), Token::Dot2);
    assert_eq!(single_token(b"."), Token::Dot);
    assert_eq!(single_token(b"=="), Token::Equals2);
    assert_eq!(single_token(b"="), Token::Equals);
    assert_eq!(single_token(b"<="), Token::LAngleEquals);
    assert_eq!(single_token(b"<<"), Token::LAngle2);
    assert_eq!(single_token(b"<"), Token::LAngle);
    assert_eq!(single_token(b">="), Token::RAngleEquals);
    assert_eq!(single_token(b">>"), Token::RAngle2);
    assert_eq!(single_token(b"~="), Token::TildeEquals);
    assert_eq!(single_token(b"~"), Token::Tilde);
    assert_eq!(single_token(b"//"), Token::Slash2);
    assert_eq!(single_token(b"/"), Token::Slash);
    assert_eq!(single_token(b"::"), Token::Colon2);
    assert_eq!(single_token(b"#"), Token::Hash);
    let steps = tokens_of(b"{}[]();,");
    let expect = [
        Token::LCurly,
        Token::RCurly,
        Token::LSquare,
        Token::RSquare,
        Token::LParen,
        Token::RParen,
        Token::Semicolon,
        Token::Comma,
    ];
    assert_eq!(steps.len(), expect.len());
    for (step, want) in steps.iter().zip(expect.iter()) {
        match step {
            Ok(Scanned::Token(t, _, _)) => assert_eq!(t, want),
            other => panic!("unexpected {:?}", other),
        }
    }
}

#[test]
fn decimal_integers_parse_exactly() {
    assert_eq!(
        single_token(b"123"),
        Token::Numeral(Numeral::Int(123))
    );
    assert_eq!(single_token(b"0"), Token::Numeral(Numeral::Int(0)));
    assert_eq!(
        single_token(b"9223372036854775807"),
        Token::Numeral(Numeral::Int(i64::MAX))
    );
}

#[test]
fn overflowing_decimal_integer_becomes_float_request() {
    let steps = tokens_of(b"9223372036854775808");
    match steps[0] {
        Ok(Scanned::Float { hex, number_start, number_end, start, end }) => {
            assert!(!hex);
            assert_eq!((number_start, number_end), (0, 19));
            assert_eq!((start, end), (0, 19));
        }
        ref other => panic!("unexpected {:?}", other),
    }
}

#[test]
fn hex_integers_accumulate_with_wraparound() {
    assert_eq!(single_token(b"0x10"), Token::Numeral(Numeral::Int(16)));
    assert_eq!(single_token(b"0XaB"), Token::Numeral(Numeral::Int(0xab)));
    assert_eq!(
        single_token(b"0xFFFFFFFFFFFFFFFF"),
        Token::Numeral(Numeral::Int(-1))
    );
    assert_eq!(
        single_token(b"0x10000000000000000"),
        Token::Numeral(Numeral::Int(0))
    );
    assert_eq!(
        single_token(b"0x8000000000000000"),
        Token::Numeral(Numeral::Int(i64::MIN))
    );
}

#[test]
fn float_literals_become_requests_with_exact_spans() {
    let steps = tokens_of(b"3.14");
    match steps[0] {
        Ok(Scanned::Float { hex, number_start, number_end, .. }) => {
            assert!(!hex);
            let bits: u64 = lexical::parse::<f64, _>(&b"3.14"[number_start..number_end])
                .unwrap()
                .to_bits();
            assert_eq!(bits, (3.14f64).to_bits());
        }
        ref other => panic!("unexpected {:?}", other),
    }
    // trailing dot, leading dot, exponent forms
    match tokens_of(b"1.")[0] {
        Ok(Scanned::Float { hex: false, number_start: 0, number_end: 2, .. }) => {}
        ref other => panic!("unexpected {:?}", other),
    }
    match tokens_of(b".5")[0] {
        Ok(Scanned::Float { hex: false, number_start: 0, number_end: 2, .. }) => {}
        ref other => panic!("unexpected {:?}", other),
    }
    match tokens_of(b"2.5e-3")[0] {
        Ok(Scanned::Float { hex: false, number_start: 0, number_end: 6, .. }) => {}
        ref other => panic!("unexpected {:?}", other),
    }
    // a hex float names the digits past the 0x prefix
    match tokens_of(b"0xA.8p1")[0] {
        Ok(Scanned::Float { hex: true, number_start: 2, number_end: 7, start: 0, end: 7 }) => {}
        ref other => panic!("unexpected {:?}", other),
    }
}

#[test]
fn exponent_without_dot_stays_an_integer() {
    // the numeral grammar requires a dot in float literals
    let steps = tokens_of(b"1e5");
    assert_eq!(steps.len(), 2);
    match steps[0] {
        Ok(Scanned::Token(Token::Numeral(Numeral::Int(1)), _, _)) => {}
        ref other => panic!("unexpected {:?}", other),
    }
    match steps[1] {
        Ok(Scanned::Token(Token::Name(_), _, _)) => {}
        ref other => panic!("unexpected {:?}", other),
    }
}

#[test]
fn unexpected_byte_ends_the_stream() {
    let mut pool = StringPool::new();
    let mut stream = TokenStream::new(b"@ x");
    assert_eq!(stream.next(&mut pool), Some(Err(Error::UnexpectedByte)));
    assert_eq!(stream.next(&mut pool), None);
}

#[test]
fn spans_cover_the_token_text() {
    let steps = tokens_of(b"  foo  123");
    match steps[0] {
        Ok(Scanned::Token(Token::Name(_), 2, 5)) => {}
        ref other => panic!("unexpected {:?}", other),
    }
    match steps[1] {
        Ok(Scanned::Token(Token::Numeral(Numeral::Int(123)), 7, 10)) => {}
        ref other => panic!("unexpected {:?}", other),
    }
}

#[test]
fn error_messages_name_the_kind() {
    assert_eq!(Error::UnexpectedByte.message(), "unexpected byte");
    assert_eq!(
        Error::UnclosedStringLiteral.message(),
        "unclosed string literal"
    );
    assert_eq!(Error::UnclosedLongComment.message(), "unclosed long comment");
    assert_eq!(Error::UnclosedLongLiteral.message(), "unclosed long literal");
    assert_eq!(
        Error::InvalidDecEscape.message(),
        "invalid decimal escape sequence in string literal"
    );
    assert_eq!(
        Error::InvalidUnicodeEscape.message(),
        "invalid unicode escape sequence in string literal"
    );
    assert_eq!(Error::default(), Error::UnexpectedByte);
}

#[test]
fn empty_and_trivia_only_sources_yield_nothing() {
    assert_eq!(tokens_of(b"").len(), 0);
    assert_eq!(tokens_of(b"   \t\r\n  ").len(), 0);
    assert_eq!(tokens_of(b"-- just a comment").len(), 0);
    assert_eq!(tokens_of(b"--[[ only ]]").len(), 0);
}

#[test]
fn empty_string_literals_decode_to_nothing() {
    assert_eq!(single_string(b"''"), Vec::<u8>::new());
    assert_eq!(single_string(b"\"\""), Vec::<u8>::new());
    assert_eq!(single_string(b"[[]]"), Vec::<u8>::new());
}

#[test]
fn hex_prefix_without_digits_is_zero_then_name() {
    let steps = tokens_of(b"0x");
    assert_eq!(steps.len(), 2);
    match steps[0] {
        Ok(Scanned::Token(Token::Numeral(Numeral::Int(0)), 0, 1)) => {}
        ref other => panic!("unexpected {:?}", other),
    }
    match steps[1] {
        Ok(Scanned::Token(Token::Name(_), 1, 2)) => {}
        ref other => panic!("unexpected {:?}", other),
    }
}

#[test]
fn hex_exponent_without_dot_stays_an_integer() {
    let steps = tokens_of(b"0x2p1");
    assert_eq!(steps.len(), 2);
    match steps[0] {
        Ok(Scanned::Token(Token::Numeral(Numeral::Int(2)), _, _)) => {}
        ref other => panic!("unexpected {:?}", other),
    }
}

#[test]
fn string_contents_are_interned_like_names() {
    let mut pool = StringPool::new();
    let mut stream = TokenStream::new(b"'ab' \"ab\" ab");
    let sref = |step| match step {
        Some(Ok(Scanned::Token(Token::String(s), _, _))) => s,
        Some(Ok(Scanned::Token(Token::Name(s), _, _))) => s,
        other => panic!("expected a string or name, got {:?}", other),
    };
    let a = sref(stream.next(&mut pool));
    let b = sref(stream.next(&mut pool));
    let c = sref(stream.next(&mut pool));
    // equal contents intern to one reference, whatever produced them
    assert_eq!(a, b);
    assert_eq!(a, c);
    assert_eq!(pool.len(), 1);
}
