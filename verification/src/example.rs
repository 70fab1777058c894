//! A small parser for variable bindings such as `let x = 12`.
//!
//! Each parser takes the bytes that are left and answers, in the manner of
//! a parser-combinator library, with what it read and the bytes after it,
//! with the place where it rejected the input, or with how many bytes it
//! still needs to decide.

use vstd::prelude::*;
use vstd::utf8::*;

verus! {

/// A calendar date with a time of day.
pub struct ISODate {
    year: i16,
    month: u8,
    day: u8,
    hour: u8,
    minute: u8,
    second: u8,
}

/// How many bytes a parser needs in all before it can decide.
#[derive(Debug, PartialEq, Eq, Clone, Copy, Structural)]
pub enum Needed {
    /// The parser cannot tell.
    Unknown,
    /// The parser needs this many bytes of input.
    Size(usize),
}

/// Which parser rejected the input.
#[derive(Debug, PartialEq, Eq, Clone, Copy, Structural)]
pub enum ErrorKind {
    /// A fixed word was not there.
    Tag,
    /// None of the alternatives matched.
    Alt,
    /// Not even one byte of the wanted kind was there.
    TakeWhile1,
}

/// The outcome of running a parser on a byte slice.
#[derive(Debug, PartialEq, Eq)]
pub enum IResult<'a, O> {
    /// The parser read a value; the bytes after it are left.
    Done(&'a [u8], O),
    /// The parser rejected the input that starts here.
    Error(ErrorKind, &'a [u8]),
    /// The input ended before the parser could decide.
    Incomplete(Needed),
}

/// A variable binding: `let name = digits` or `mut name = digits`.
#[derive(PartialEq, Eq, Debug)]
pub struct Binding {
    pub name: String,
    pub mutable: bool,
    pub value: String,
}

/// Where a parser stopped, in bytes from the start of its input.
pub ghost enum Step {
    /// It read this many bytes.
    Done(nat),
    /// It rejected the input that starts this many bytes in.
    Error(ErrorKind, nat),
    /// It needs more input.
    Incomplete(Needed),
}

/// `r` is the outcome that `step` describes on `input`.
pub open spec fn agrees<'a, O>(input: Seq<u8>, r: IResult<'a, O>, step: Step) -> bool {
    match step {
        Step::Done(n) => n <= input.len() && (r matches IResult::Done(rest, _) && rest@
            == input.skip(n as int)),
        Step::Error(kind, at) => at <= input.len() && (r matches IResult::Error(k, pos) && k
            == kind && pos@ == input.skip(at as int)),
        Step::Incomplete(need) => r matches IResult::Incomplete(n) && n == need,
    }
}

/// The step of a parser that runs after `at` bytes were read, counted from
/// the start of the whole input.
pub open spec fn shifted(at: nat, step: Step) -> Step {
    match step {
        Step::Done(n) => Step::Done(at + n),
        Step::Error(k, p) => Step::Error(k, at + p),
        Step::Incomplete(Needed::Size(k)) => Step::Incomplete(Needed::Size((at + k) as usize)),
        Step::Incomplete(Needed::Unknown) => Step::Incomplete(Needed::Unknown),
    }
}

/// What reading the fixed word `word` from `s` gives.
pub open spec fn tag_step(s: Seq<u8>, word: Seq<u8>) -> Step {
    if word.len() > s.len() {
        Step::Incomplete(Needed::Size(word.len() as usize))
    } else if s.take(word.len() as int) == word {
        Step::Done(word.len())
    } else {
        Step::Error(ErrorKind::Tag, 0)
    }
}

/// The bytes of `let`.
pub open spec fn let_word() -> Seq<u8> {
    seq![108u8, 101u8, 116u8]
}

/// The bytes of `mut`.
pub open spec fn mut_word() -> Seq<u8> {
    seq![109u8, 117u8, 116u8]
}

/// The byte of `=`.
pub open spec fn eq_word() -> Seq<u8> {
    seq![61u8]
}

/// The byte of `+`.
pub open spec fn plus_word() -> Seq<u8> {
    seq![43u8]
}

/// The byte of `-`.
pub open spec fn minus_word() -> Seq<u8> {
    seq![45u8]
}

/// Kinds of bytes that a run is made of.
#[derive(Debug, PartialEq, Eq, Clone, Copy, Structural)]
pub enum ByteClass {
    /// `0` to `9`.
    Digit,
    /// A space or a tab.
    Space,
    /// An ASCII letter or digit.
    Alphanumeric,
}

/// `c` is of the kind `class`.
pub open spec fn in_class(c: u8, class: ByteClass) -> bool {
    match class {
        ByteClass::Digit => 48 <= c <= 57,
        ByteClass::Space => c == 32 || c == 9,
        ByteClass::Alphanumeric => (48 <= c <= 57) || (65 <= c <= 90) || (97 <= c <= 122),
    }
}

/// The length of the longest prefix of `s` made of bytes of kind `class`.
pub open spec fn run_len(s: Seq<u8>, class: ByteClass) -> nat
    decreases s.len(),
{
    if s.len() == 0 || !in_class(s[0], class) {
        0
    } else {
        1 + run_len(s.drop_first(), class)
    }
}

/// What reading one or more bytes of kind `class` from `s` gives.
pub open spec fn take_while1_step(s: Seq<u8>, class: ByteClass) -> Step {
    if s.len() == 0 {
        Step::Incomplete(Needed::Size(1))
    } else if run_len(s, class) == 0 {
        Step::Error(ErrorKind::TakeWhile1, 0)
    } else {
        Step::Done(run_len(s, class))
    }
}

/// What reading the first of two fixed words that is there gives.
pub open spec fn alt_step(s: Seq<u8>, first: Seq<u8>, second: Seq<u8>) -> Step {
    match tag_step(s, first) {
        Step::Error(_, _) => match tag_step(s, second) {
            Step::Error(_, _) => Step::Error(ErrorKind::Alt, 0),
            other => other,
        },
        other => other,
    }
}

/// Where the parts of a binding stand in `s`.
pub ghost struct BindingLayout {
    pub after_decl: nat,
    pub name_start: nat,
    pub name_end: nat,
    pub eq_at: nat,
    pub after_eq: nat,
    pub value_start: nat,
    pub value_end: nat,
}

/// The places where each part of a binding in `s` begins and ends.
pub open spec fn binding_layout(s: Seq<u8>) -> BindingLayout {
    let after_decl = 3nat;
    let name_start = after_decl + run_len(s.skip(after_decl as int), ByteClass::Space);
    let name_end = name_start + run_len(s.skip(name_start as int), ByteClass::Alphanumeric);
    let eq_at = name_end + run_len(s.skip(name_end as int), ByteClass::Space);
    let after_eq = eq_at + 1;
    let value_start = after_eq + run_len(s.skip(after_eq as int), ByteClass::Space);
    let value_end = value_start + run_len(s.skip(value_start as int), ByteClass::Digit);
    BindingLayout { after_decl, name_start, name_end, eq_at, after_eq, value_start, value_end }
}

/// What reading a binding from `s` gives: the first part that fails decides.
pub open spec fn binding_step(s: Seq<u8>) -> Step {
    let l = binding_layout(s);
    let decl = alt_step(s, let_word(), mut_word());
    if !(decl is Done) {
        decl
    } else if !(take_while1_step(s.skip(l.after_decl as int), ByteClass::Space) is Done) {
        shifted(l.after_decl, take_while1_step(s.skip(l.after_decl as int), ByteClass::Space))
    } else if !(take_while1_step(s.skip(l.name_end as int), ByteClass::Space) is Done) {
        shifted(l.name_end, take_while1_step(s.skip(l.name_end as int), ByteClass::Space))
    } else if !(tag_step(s.skip(l.eq_at as int), eq_word()) is Done) {
        shifted(l.eq_at, tag_step(s.skip(l.eq_at as int), eq_word()))
    } else if !(take_while1_step(s.skip(l.after_eq as int), ByteClass::Space) is Done) {
        shifted(l.after_eq, take_while1_step(s.skip(l.after_eq as int), ByteClass::Space))
    } else {
        shifted(l.value_start, take_while1_step(s.skip(l.value_start as int), ByteClass::Digit))
    }
}

/// The characters of ASCII bytes.
pub open spec fn ascii_text(b: Seq<u8>) -> Seq<char> {
    Seq::new(b.len(), |i: int| b[i] as char)
}

proof fn lemma_run_len(s: Seq<u8>, class: ByteClass, n: nat)
    requires
        n <= s.len(),
        forall|i: int| 0 <= i < n ==> in_class(#[trigger] s[i], class),
        n == s.len() || !in_class(s[n as int], class),
    ensures
        run_len(s, class) == n,
    decreases n,
{
    if n > 0 {
        assert(in_class(s[0], class));
        let t = s.drop_first();
        assert forall|i: int| 0 <= i < n - 1 implies in_class(#[trigger] t[i], class) by {
            assert(t[i] == s[i + 1]);
        }
        if n < s.len() {
            assert(t[n - 1] == s[n as int]);
        }
        lemma_run_len(t, class, (n - 1) as nat);
    }
}

proof fn lemma_run_len_bound(s: Seq<u8>, class: ByteClass)
    ensures
        run_len(s, class) <= s.len(),
        forall|i: int| 0 <= i < run_len(s, class) ==> in_class(#[trigger] s[i], class),
    decreases s.len(),
{
    if s.len() > 0 && in_class(s[0], class) {
        let t = s.drop_first();
        lemma_run_len_bound(t, class);
        assert forall|i: int| 0 <= i < run_len(s, class) implies in_class(#[trigger] s[i], class) by {
            if i > 0 {
                assert(s[i] == t[i - 1]);
            }
        }
    }
}

proof fn lemma_skip_skip(s: Seq<u8>, a: int, b: int)
    requires
        0 <= a <= s.len(),
        0 <= b <= s.len() - a,
    ensures
        s.skip(a).skip(b) == s.skip(a + b),
{
    assert(s.skip(a).skip(b) =~= s.skip(a + b));
}

/// Bytes below 128 are well-formed UTF-8 and stand for the characters
/// with the same numbers.
pub proof fn lemma_ascii_utf8(b: Seq<u8>)
    requires
        forall|i: int| 0 <= i < b.len() ==> #[trigger] b[i] < 128,
    ensures
        valid_utf8(b),
        decode_utf8(b) == ascii_text(b),
{
    let c = ascii_text(b);
    assert(is_ascii_chars(c));
    is_ascii_chars_encode_utf8(c);
    assert forall|i: int| 0 <= i < b.len() implies encode_utf8(c)[i] == b[i] by {
        assert(c[i] == b[i] as char);
    }
    assert(encode_utf8(c) =~= b);
    encode_utf8_valid_utf8(c);
    encode_utf8_decode_utf8(c);
}

/// The text of a binding with single spaces: the keyword, a space, the
/// name, ` = ` and the digits.
pub open spec fn binding_text(mutable: bool, name: Seq<u8>, digits: Seq<u8>) -> Seq<u8> {
    (if mutable { mut_word() } else { let_word() }) + seq![32u8] + name + seq![32u8, 61u8, 32u8] + digits
}

proof fn lemma_run_of(s: Seq<u8>, off: int, n: int, class: ByteClass)
    requires
        0 <= off,
        0 <= n,
        off + n <= s.len(),
        forall|i: int| off <= i < off + n ==> in_class(#[trigger] s[i], class),
        off + n == s.len() || !in_class(s[off + n], class),
    ensures
        run_len(s.skip(off), class) == n,
{
    let t = s.skip(off);
    assert forall|i: int| 0 <= i < n implies in_class(#[trigger] t[i], class) by {
        assert(t[i] == s[off + i]);
    }
    if off + n < s.len() {
        assert(t[n] == s[off + n]);
    }
    lemma_run_len(t, class, n as nat);
}

/// Reading a binding written with single spaces, followed by anything that
/// does not start with a digit, gives back its keyword, name and digits,
/// and leaves what follows.
pub proof fn law_binding_reads_its_parts(mutable: bool, name: Seq<u8>, digits: Seq<u8>, rest: Seq<u8>)
    requires
        name.len() > 0,
        forall|i: int| 0 <= i < name.len() ==> in_class(#[trigger] name[i], ByteClass::Alphanumeric),
        digits.len() > 0,
        forall|i: int| 0 <= i < digits.len() ==> in_class(#[trigger] digits[i], ByteClass::Digit),
        rest.len() == 0 || !in_class(rest[0], ByteClass::Digit),
    ensures
        ({
            let s = binding_text(mutable, name, digits) + rest;
            let l = binding_layout(s);
            &&& binding_step(s) == Step::Done(binding_text(mutable, name, digits).len())
            &&& !(tag_step(s, let_word()) is Done) == mutable
            &&& s.subrange(l.name_start as int, l.name_end as int) == name
            &&& s.subrange(l.value_start as int, l.value_end as int) == digits
        }),
{
    let t = binding_text(mutable, name, digits);
    let s = t + rest;
    let k = name.len() as int;
    let d = digits.len() as int;
    assert(t.len() == 3 + 1 + k + 3 + d);
    assert(forall|i: int| 0 <= i < t.len() ==> s[i] == t[i]);
    assert(forall|i: int| 0 <= i < k ==> #[trigger] s[4 + i] == name[i]);
    assert(forall|i: int| 0 <= i < d ==> #[trigger] s[7 + k + i] == digits[i]);
    assert(s[3] == 32u8);
    assert(s[4 + k] == 32u8);
    assert(s[5 + k] == 61u8);
    assert(s[6 + k] == 32u8);
    lemma_run_of(s, 3, 1, ByteClass::Space);
    assert forall|i: int| 4 <= i < 4 + k implies in_class(#[trigger] s[i], ByteClass::Alphanumeric) by {
        assert(s[4 + (i - 4)] == name[i - 4]);
    }
    lemma_run_of(s, 4, k, ByteClass::Alphanumeric);
    lemma_run_of(s, 4 + k, 1, ByteClass::Space);
    lemma_run_of(s, 6 + k, 1, ByteClass::Space);
    assert forall|i: int| 7 + k <= i < 7 + k + d implies in_class(#[trigger] s[i], ByteClass::Digit) by {
        assert(s[7 + k + (i - 7 - k)] == digits[i - 7 - k]);
    }
    if rest.len() > 0 {
        assert(s[7 + k + d] == rest[0]);
    }
    lemma_run_of(s, 7 + k, d, ByteClass::Digit);
    let l = binding_layout(s);
    assert(l.name_start == 4 && l.name_end == 4 + k && l.eq_at == 5 + k && l.after_eq == 6 + k);
    assert(l.value_start == 7 + k && l.value_end == 7 + k + d);
    assert(s.take(3) =~= (if mutable { mut_word() } else { let_word() }));
    assert(mut_word() != let_word()) by {
        assert(mut_word()[0] != let_word()[0]);
    }
    assert(s.skip(5 + k).take(1) =~= eq_word());
    assert(s.skip(3)[0] == 32u8);
    assert(s.skip(4 + k)[0] == 32u8);
    assert(s.skip(6 + k)[0] == 32u8);
    assert(s.skip(7 + k)[0] == digits[0]);
    assert(s.subrange(4, 4 + k) =~= name);
    assert(s.subrange(7 + k, 7 + k + d) =~= digits);
}

/// Whether `c` is of the kind `class`.
pub fn byte_in_class(c: u8, class: ByteClass) -> (b: bool)
    ensures
        b == in_class(c, class),
{
    match class {
        ByteClass::Digit => 48 <= c && c <= 57,
        ByteClass::Space => c == 32 || c == 9,
        ByteClass::Alphanumeric => (48 <= c && c <= 57) || (65 <= c && c <= 90) || (97 <= c
            && c <= 122),
    }
}

/// The number of bytes of kind `class` at the start of `input`.
fn class_run(input: &[u8], class: ByteClass) -> (n: usize)
    ensures
        n == run_len(input@, class),
{
    let mut i: usize = 0;
    while i < input.len() && byte_in_class(input[i], class)
        invariant
            i <= input.len(),
            forall|j: int| 0 <= j < i ==> in_class(#[trigger] input@[j], class),
        decreases input.len() - i,
    {
        i += 1;
    }
    proof {
        lemma_run_len(input@, class, i as nat);
    }
    i
}

/// Reads the fixed word `word` from the start of `input`.
pub fn tag<'a>(input: &'a [u8], word: &[u8]) -> (r: IResult<'a, &'a [u8]>)
    ensures
        agrees(input@, r, tag_step(input@, word@)),
        r matches IResult::Done(_, out) ==> out@ == word@,
{
    if word.len() > input.len() {
        return IResult::Incomplete(Needed::Size(word.len()));
    }
    let mut i: usize = 0;
    while i < word.len()
        invariant
            i <= word.len() <= input.len(),
            forall|j: int| 0 <= j < i ==> input@[j] == word@[j],
        decreases word.len() - i,
    {
        if input[i] != word[i] {
            assert(input@.take(word.len() as int)[i as int] != word@[i as int]);
            assert(input@.skip(0) =~= input@);
            return IResult::Error(ErrorKind::Tag, input);
        }
        i += 1;
    }
    let (head, rest) = input.split_at(word.len());
    assert(input@.take(word.len() as int) =~= word@);
    IResult::Done(rest, head)
}

/// Reads one or more bytes of kind `class` from the start of `input`.
pub fn take_while1<'a>(input: &'a [u8], class: ByteClass) -> (r: IResult<'a, &'a [u8]>)
    ensures
        agrees(input@, r, take_while1_step(input@, class)),
        r matches IResult::Done(_, out) ==> out@ == input@.take(run_len(input@, class) as int),
{
    if input.len() == 0 {
        return IResult::Incomplete(Needed::Size(1));
    }
    let n = class_run(input, class);
    proof {
        lemma_run_len_bound(input@, class);
    }
    if n == 0 {
        assert(input@.skip(0) =~= input@);
        return IResult::Error(ErrorKind::TakeWhile1, input);
    }
    let (head, rest) = input.split_at(n);
    IResult::Done(rest, head)
}

/// Reads `+` or `-`, and tells whether it was `+`.
pub fn sign<'a>(input: &'a [u8]) -> (r: IResult<'a, bool>)
    ensures
        agrees(input@, r, alt_step(input@, plus_word(), minus_word())),
        r matches IResult::Done(_, plus) ==> plus == (tag_step(input@, plus_word()) is Done),
{
    let plus: [u8; 1] = [43];
    let minus: [u8; 1] = [45];
    assert(plus@ == plus_word());
    assert(minus@ == minus_word());
    match tag(input, plus.as_slice()) {
        IResult::Done(rest, _) => IResult::Done(rest, true),
        IResult::Incomplete(n) => IResult::Incomplete(n),
        IResult::Error(_, _) => match tag(input, minus.as_slice()) {
            IResult::Done(rest, _) => IResult::Done(rest, false),
            IResult::Incomplete(n) => IResult::Incomplete(n),
            IResult::Error(_, _) => {
                assert(input@.skip(0) =~= input@);
                IResult::Error(ErrorKind::Alt, input)
            },
        },
    }
}

/// Reads the word `let`.
pub fn keyword_let<'a>(input: &'a [u8]) -> (r: IResult<'a, &'a [u8]>)
    ensures
        agrees(input@, r, tag_step(input@, let_word())),
        r matches IResult::Done(_, out) ==> out@ == let_word(),
{
    let word: [u8; 3] = [108, 101, 116];
    assert(word@ == let_word());
    tag(input, word.as_slice())
}

/// Reads the sign `=`.
pub fn keyword_eq<'a>(input: &'a [u8]) -> (r: IResult<'a, &'a [u8]>)
    ensures
        agrees(input@, r, tag_step(input@, eq_word())),
        r matches IResult::Done(_, out) ==> out@ == eq_word(),
{
    let word: [u8; 1] = [61];
    assert(word@ == eq_word());
    tag(input, word.as_slice())
}

/// Reads the word `mut`.
pub fn keyword_mut<'a>(input: &'a [u8]) -> (r: IResult<'a, &'a [u8]>)
    ensures
        agrees(input@, r, tag_step(input@, mut_word())),
        r matches IResult::Done(_, out) ==> out@ == mut_word(),
{
    let word: [u8; 3] = [109, 117, 116];
    assert(word@ == mut_word());
    tag(input, word.as_slice())
}

/// Reads one or more digits.
pub fn get_digits<'a>(input: &'a [u8]) -> (r: IResult<'a, &'a [u8]>)
    ensures
        agrees(input@, r, take_while1_step(input@, ByteClass::Digit)),
        r matches IResult::Done(_, out) ==> out@ == input@.take(
            run_len(input@, ByteClass::Digit) as int,
        ),
{
    take_while1(input, ByteClass::Digit)
}

/// Reads one or more spaces or tabs.
pub fn spacing<'a>(input: &'a [u8]) -> (r: IResult<'a, &'a [u8]>)
    ensures
        agrees(input@, r, take_while1_step(input@, ByteClass::Space)),
        r matches IResult::Done(_, out) ==> out@ == input@.take(
            run_len(input@, ByteClass::Space) as int,
        ),
{
    take_while1(input, ByteClass::Space)
}

/// Reads the letters and digits at the start of `input`, none at all too.
pub fn ident<'a>(input: &'a [u8]) -> (r: IResult<'a, &'a [u8]>)
    ensures
        agrees(input@, r, Step::Done(run_len(input@, ByteClass::Alphanumeric))),
        r matches IResult::Done(_, out) ==> out@ == input@.take(
            run_len(input@, ByteClass::Alphanumeric) as int,
        ),
{
    let n = class_run(input, ByteClass::Alphanumeric);
    proof {
        lemma_run_len_bound(input@, ByteClass::Alphanumeric);
    }
    let (head, rest) = input.split_at(n);
    IResult::Done(rest, head)
}

/// Reads `let` or `mut`, and tells whether the binding is mutable.
pub fn declaration<'a>(input: &'a [u8]) -> (r: IResult<'a, bool>)
    ensures
        agrees(input@, r, alt_step(input@, let_word(), mut_word())),
        r matches IResult::Done(_, m) ==> m == !(tag_step(input@, let_word()) is Done),
{
    match keyword_let(input) {
        IResult::Done(rest, _) => IResult::Done(rest, false),
        IResult::Incomplete(n) => IResult::Incomplete(n),
        IResult::Error(_, _) => match keyword_mut(input) {
            IResult::Done(rest, _) => IResult::Done(rest, true),
            IResult::Incomplete(n) => IResult::Incomplete(n),
            IResult::Error(_, _) => {
                assert(input@.skip(0) =~= input@);
                IResult::Error(ErrorKind::Alt, input)
            },
        },
    }
}

/// Wraps `std::str::from_utf8`: the bytes read as text when they are
/// well-formed UTF-8, and no text otherwise.
#[verifier::external_body]
fn utf8_text(bytes: &[u8]) -> (r: Option<&str>)
    ensures
        r is Some <==> valid_utf8(bytes@),
        r matches Some(s) ==> encode_utf8(s@) == bytes@,
{
    std::str::from_utf8(bytes).ok()
}

/// The text that the UTF-8 bytes `input` encode.
pub fn get_string(input: &[u8]) -> (s: String)
    requires
        valid_utf8(input@),
    ensures
        s@ == decode_utf8(input@),
{
    match utf8_text(input) {
        Some(text) => {
            proof {
                encode_utf8_decode_utf8(text@);
            }
            text.to_owned()
        },
        None => String::new(),
    }
}

/// How many bytes are needed in all, when a parser that ran after
/// `consumed` bytes needed `need`.
fn needed_after(consumed: usize, need: Needed) -> (r: Needed)
    requires
        need matches Needed::Size(k) ==> consumed + k <= usize::MAX,
    ensures
        shifted(consumed as nat, Step::Incomplete(need)) == Step::Incomplete(r),
{
    match need {
        Needed::Size(k) => Needed::Size(consumed + k),
        Needed::Unknown => Needed::Unknown,
    }
}

/// Reads a binding, `let name = digits` or `mut name = digits`, with at
/// least one space or tab between the parts.
pub fn binding<'a>(input: &'a [u8]) -> (r: IResult<'a, Binding>)
    requires
        input@.len() <= isize::MAX,
    ensures
        agrees(input@, r, binding_step(input@)),
        r matches IResult::Done(_, b) ==> {
            let l = binding_layout(input@);
            &&& b.mutable == !(tag_step(input@, let_word()) is Done)
            &&& b.name@ == ascii_text(input@.subrange(l.name_start as int, l.name_end as int))
            &&& b.value@ == ascii_text(input@.subrange(l.value_start as int, l.value_end as int))
        },
{
    let ghost s = input@;
    let ghost l = binding_layout(s);
    proof {
        lemma_run_len_bound(s.skip(3), ByteClass::Space);
    }
    let (mutable, after_decl) = match declaration(input) {
        IResult::Done(rest, m) => (m, rest),
        IResult::Error(k, p) => {
            return IResult::Error(k, p);
        },
        IResult::Incomplete(n) => {
            return IResult::Incomplete(n);
        },
    };
    assert(after_decl@ == s.skip(l.after_decl as int));
    let name_input = match spacing(after_decl) {
        IResult::Done(rest, _) => rest,
        IResult::Error(k, p) => {
            proof {
                lemma_skip_skip(s, 3, 0);
            }
            return IResult::Error(k, p);
        },
        IResult::Incomplete(n) => {
            return IResult::Incomplete(needed_after(input.len() - after_decl.len(), n));
        },
    };
    proof {
        lemma_skip_skip(s, l.after_decl as int, l.name_start - l.after_decl);
        lemma_run_len_bound(s.skip(l.name_start as int), ByteClass::Alphanumeric);
    }
    assert(name_input@ == s.skip(l.name_start as int));
    let (after_name, name) = match ident(name_input) {
        IResult::Done(rest, out) => (rest, out),
        _ => {
            return IResult::Incomplete(Needed::Unknown);
        },
    };
    proof {
        lemma_skip_skip(s, l.name_start as int, l.name_end - l.name_start);
        lemma_run_len_bound(s.skip(l.name_end as int), ByteClass::Space);
        assert(name@ =~= s.subrange(l.name_start as int, l.name_end as int));
    }
    assert(after_name@ == s.skip(l.name_end as int));
    let eq_input = match spacing(after_name) {
        IResult::Done(rest, _) => rest,
        IResult::Error(k, p) => {
            proof {
                lemma_skip_skip(s, l.name_end as int, 0);
            }
            return IResult::Error(k, p);
        },
        IResult::Incomplete(n) => {
            return IResult::Incomplete(needed_after(input.len() - after_name.len(), n));
        },
    };
    proof {
        lemma_skip_skip(s, l.name_end as int, l.eq_at - l.name_end);
    }
    assert(eq_input@ == s.skip(l.eq_at as int));
    let value_space = match keyword_eq(eq_input) {
        IResult::Done(rest, _) => rest,
        IResult::Error(k, p) => {
            proof {
                lemma_skip_skip(s, l.eq_at as int, 0);
            }
            return IResult::Error(k, p);
        },
        IResult::Incomplete(n) => {
            return IResult::Incomplete(needed_after(input.len() - eq_input.len(), n));
        },
    };
    proof {
        lemma_skip_skip(s, l.eq_at as int, 1);
        lemma_run_len_bound(s.skip(l.after_eq as int), ByteClass::Space);
    }
    assert(value_space@ == s.skip(l.after_eq as int));
    let value_input = match spacing(value_space) {
        IResult::Done(rest, _) => rest,
        IResult::Error(k, p) => {
            proof {
                lemma_skip_skip(s, l.after_eq as int, 0);
            }
            return IResult::Error(k, p);
        },
        IResult::Incomplete(n) => {
            return IResult::Incomplete(needed_after(input.len() - value_space.len(), n));
        },
    };
    proof {
        lemma_skip_skip(s, l.after_eq as int, l.value_start - l.after_eq);
        lemma_run_len_bound(s.skip(l.value_start as int), ByteClass::Digit);
    }
    assert(value_input@ == s.skip(l.value_start as int));
    let (rest, value) = match get_digits(value_input) {
        IResult::Done(rest, out) => (rest, out),
        IResult::Error(k, p) => {
            proof {
                lemma_skip_skip(s, l.value_start as int, 0);
            }
            return IResult::Error(k, p);
        },
        IResult::Incomplete(n) => {
            return IResult::Incomplete(needed_after(input.len() - value_input.len(), n));
        },
    };
    proof {
        lemma_skip_skip(s, l.value_start as int, l.value_end - l.value_start);
        assert(value@ =~= s.subrange(l.value_start as int, l.value_end as int));
        lemma_ascii_utf8(name@);
        lemma_ascii_utf8(value@);
    }
    let name_text = get_string(name);
    let value_text = get_string(value);
    IResult::Done(rest, Binding { name: name_text, mutable, value: value_text })
}

} // verus!
