use protosnirk::example::{
    binding, declaration, get_digits, get_string, ident, keyword_eq, keyword_let, keyword_mut,
    sign, spacing, Binding, ErrorKind, IResult, Needed,
};
use protosnirk::example::IResult::Done;

const EMPTY: &'static [u8] = &[];

#[test]
fn sign_works() {
    assert_eq!(sign(&b"+"[..]), Done(EMPTY, true));
    assert_eq!(sign(&b"-"[..]), Done(EMPTY, false));
    assert_eq!(sign(&b"+"[..]), IResult::Done(EMPTY, true));
}

#[test]
fn binding_works() {
    assert_eq!(
        binding(&b"let foo = 12"[..]),
        Done(EMPTY, Binding { name: "foo".to_string(), mutable: false, value: "12".to_string() })
    );
    assert_eq!(
        binding(&b"mut foobarbaz = 1234"[..]),
        IResult::Done(
            EMPTY,
            Binding { name: "foobarbaz".into(), mutable: true, value: "1234".into() }
        )
    );
    assert_eq!(
        binding(&b"let asdf = 22243"[..]),
        IResult::Done(EMPTY, Binding { name: "asdf".into(), mutable: false, value: "22243".into() })
    );
}

#[test]
fn sign_rejects_other_bytes_and_waits_on_empty_input() {
    let input = &b"*1"[..];
    assert_eq!(sign(input), IResult::Error(ErrorKind::Alt, input));
    assert_eq!(sign(EMPTY), IResult::Incomplete(Needed::Size(1)));
    assert_eq!(sign(&b"-5"[..]), IResult::Done(&b"5"[..], false));
}

#[test]
fn keywords_read_their_word() {
    assert_eq!(keyword_let(&b"let x"[..]), IResult::Done(&b" x"[..], &b"let"[..]));
    assert_eq!(keyword_mut(&b"mut"[..]), IResult::Done(EMPTY, &b"mut"[..]));
    assert_eq!(keyword_eq(&b"=1"[..]), IResult::Done(&b"1"[..], &b"="[..]));
    let other = &b"var"[..];
    assert_eq!(keyword_let(other), IResult::Error(ErrorKind::Tag, other));
    assert_eq!(keyword_mut(&b"mu"[..]), IResult::Incomplete(Needed::Size(3)));
}

#[test]
fn runs_of_bytes() {
    assert_eq!(get_digits(&b"123abc"[..]), IResult::Done(&b"abc"[..], &b"123"[..]));
    assert_eq!(get_digits(&b"42"[..]), IResult::Done(EMPTY, &b"42"[..]));
    let letters = &b"abc"[..];
    assert_eq!(get_digits(letters), IResult::Error(ErrorKind::TakeWhile1, letters));
    assert_eq!(get_digits(EMPTY), IResult::Incomplete(Needed::Size(1)));
    assert_eq!(spacing(&b" \t x"[..]), IResult::Done(&b"x"[..], &b" \t "[..]));
    assert_eq!(ident(&b"ab12 = 3"[..]), IResult::Done(&b" = 3"[..], &b"ab12"[..]));
    assert_eq!(ident(&b" x"[..]), IResult::Done(&b" x"[..], EMPTY));
}

#[test]
fn declaration_tells_mutability() {
    assert_eq!(declaration(&b"let"[..]), IResult::Done(EMPTY, false));
    assert_eq!(declaration(&b"mut a"[..]), IResult::Done(&b" a"[..], true));
    let other = &b"var a"[..];
    assert_eq!(declaration(other), IResult::Error(ErrorKind::Alt, other));
    assert_eq!(declaration(&b"le"[..]), IResult::Incomplete(Needed::Size(3)));
}

#[test]
fn binding_reports_where_it_failed() {
    let input = &b"let x 12"[..];
    assert_eq!(binding(input), IResult::Error(ErrorKind::Tag, &input[6..]));
    let no_space = &b"letx = 1"[..];
    assert_eq!(binding(no_space), IResult::Error(ErrorKind::TakeWhile1, &no_space[3..]));
    assert_eq!(binding(&b"let x = "[..]), IResult::Incomplete(Needed::Size(9)));
    assert_eq!(binding(&b"let x ="[..]), IResult::Incomplete(Needed::Size(8)));
    assert_eq!(binding(&b"mut n = 7;"[..]),
        IResult::Done(&b";"[..], Binding { name: "n".into(), mutable: true, value: "7".into() }));
}

#[test]
fn get_string_reads_utf8() {
    assert_eq!(get_string(&b"abc"[..]), "abc".to_string());
    assert_eq!(get_string("h\u{e9}".as_bytes()), "h\u{e9}".to_string());
}
