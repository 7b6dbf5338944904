//! Text building blocks of a query string: decimal numerals, the parsing of
//! integer header values, and the percent-encoding of free text.

use vstd::prelude::*;
use vstd::utf8::encode_scalar;
use percent_encoding::{utf8_percent_encode, CONTROLS};

verus! {

/// The ASCII digit for `d`, which is below ten.
pub open spec fn digit_char(d: nat) -> char {
    if d == 0 { '0' }
    else if d == 1 { '1' }
    else if d == 2 { '2' }
    else if d == 3 { '3' }
    else if d == 4 { '4' }
    else if d == 5 { '5' }
    else if d == 6 { '6' }
    else if d == 7 { '7' }
    else if d == 8 { '8' }
    else { '9' }
}

/// The decimal numeral of `n`, without sign or leading zeros.
pub open spec fn decimal(n: nat) -> Seq<char>
    decreases n,
{
    if n < 10 {
        seq![digit_char(n)]
    } else {
        decimal(n / 10).push(digit_char(n % 10))
    }
}

fn digit_str(d: u64) -> (r: &'static str)
    requires
        d < 10,
    ensures
        r@ == seq![digit_char(d as nat)],
{
    if d == 0 { proof { reveal_strlit("0"); } "0" }
    else if d == 1 { proof { reveal_strlit("1"); } "1" }
    else if d == 2 { proof { reveal_strlit("2"); } "2" }
    else if d == 3 { proof { reveal_strlit("3"); } "3" }
    else if d == 4 { proof { reveal_strlit("4"); } "4" }
    else if d == 5 { proof { reveal_strlit("5"); } "5" }
    else if d == 6 { proof { reveal_strlit("6"); } "6" }
    else if d == 7 { proof { reveal_strlit("7"); } "7" }
    else if d == 8 { proof { reveal_strlit("8"); } "8" }
    else { proof { reveal_strlit("9"); } "9" }
}

/// Appends the decimal numeral of `n` to `out`.
pub fn push_decimal(out: &mut String, n: u64)
    ensures
        final(out)@ == old(out)@ + decimal(n as nat),
    decreases n,
{
    if n >= 10 {
        push_decimal(out, n / 10);
    }
    out.append(digit_str(n % 10));
}

/// Whether `c` is an ASCII decimal digit.
pub open spec fn is_digit(c: char) -> bool {
    '0' <= c && c <= '9'
}

/// The value of the ASCII digit `c`.
pub open spec fn digit_value(c: char) -> nat {
    (c as int - '0' as int) as nat
}

/// The value of a numeral, its most significant digit first.
pub open spec fn digits_value(s: Seq<char>) -> nat
    decreases s.len(),
{
    if s.len() == 0 {
        0
    } else {
        digits_value(s.drop_last()) * 10 + digit_value(s.last())
    }
}

/// Whether `s` is made of ASCII decimal digits alone.
pub open spec fn all_digits(s: Seq<char>) -> bool {
    forall|i: int| 0 <= i < s.len() ==> is_digit(#[trigger] s[i])
}

/// The digits of a numeral once an optional leading `+` is taken off.
pub open spec fn unsigned_digits(s: Seq<char>) -> Seq<char> {
    if s.len() > 0 && s[0] == '+' {
        s.drop_first()
    } else {
        s
    }
}

/// The non-negative machine integer that `s` writes in decimal, if any:
/// an optional `+`, then one or more digits, of a value that fits in `usize`.
pub open spec fn parsed_count(s: Seq<char>) -> Option<nat> {
    let d = unsigned_digits(s);
    if d.len() > 0 && all_digits(d) && digits_value(d) <= usize::MAX {
        Some(digits_value(d))
    } else {
        None
    }
}

/// Reads a header value as a non-negative integer, as `str::parse` does.
pub fn parse_count(s: &str) -> (r: Option<usize>)
    ensures
        r is Some <==> parsed_count(s@) is Some,
        r is Some ==> r->0 as nat == parsed_count(s@)->0,
{
    let len = s.unicode_len();
    let mut start: usize = 0;
    if len > 0 && s.get_char(0) == '+' {
        start = 1;
    }
    let ghost d = unsigned_digits(s@);
    assert(d =~= s@.subrange(start as int, len as int));
    if start == len {
        return None;
    }
    let mut acc: usize = 0;
    let mut too_large = false;
    let mut i: usize = start;
    while i < len
        invariant
            start <= i <= len,
            len == s@.len(),
            d == unsigned_digits(s@),
            d =~= s@.subrange(start as int, len as int),
            forall|k: int| 0 <= k < i - start ==> is_digit(#[trigger] d[k]),
            !too_large ==> acc as nat == digits_value(d.subrange(0, i - start)),
            too_large ==> digits_value(d.subrange(0, i - start)) > usize::MAX,
        decreases len - i,
    {
        let c = s.get_char(i);
        if c < '0' || c > '9' {
            assert(!is_digit(d[i - start]));
            assert(!all_digits(d));
            return None;
        }
        let dv = (c as u32 - '0' as u32) as usize;
        let ghost prefix = d.subrange(0, i + 1 - start);
        assert(prefix.drop_last() =~= d.subrange(0, i - start));
        assert(prefix.last() == c);
        if !too_large {
            if acc > (usize::MAX - dv) / 10 {
                too_large = true;
                assert(acc * 10 + dv > usize::MAX) by (nonlinear_arith)
                    requires acc > (usize::MAX - dv) / 10, dv <= 9;
            } else {
                assert(acc * 10 + dv <= usize::MAX) by (nonlinear_arith)
                    requires acc <= (usize::MAX - dv) / 10, dv <= 9;
                acc = acc * 10 + dv;
            }
        }
        i = i + 1;
    }
    assert(d.subrange(0, len - start) =~= d);
    if too_large {
        None
    } else {
        Some(acc)
    }
}

} // verus!

verus! {

/// Whether `c` is an ASCII control character.
pub open spec fn is_ascii_control(c: char) -> bool {
    c < ' ' || c == '\u{7f}'
}

/// Whether `c` is a reserved URL delimiter: one of the general delimiters
/// `: / ? # [ ] @` or of the sub-delimiters `! $ & ' ( ) * + , ; =`.
pub open spec fn is_reserved_delimiter(c: char) -> bool {
    c == ':' || c == '/' || c == '?' || c == '#' || c == '[' || c == ']' || c == '@' || c == '!'
        || c == '$' || c == '&' || c == '\'' || c == '(' || c == ')' || c == '*' || c == '+'
        || c == ',' || c == ';' || c == '='
}

/// Whether `c` is a printable ASCII character that a query value still
/// escapes: space, the double quote and the reserved delimiters.
pub open spec fn is_escaped_printable(c: char) -> bool {
    c == ' ' || c == '"' || is_reserved_delimiter(c)
}

/// Whether `c` stands unchanged in a percent-encoded query value: an ASCII
/// character that is neither a control character nor an escaped printable one.
pub open spec fn is_query_safe(c: char) -> bool {
    c < '\u{80}' && !is_ascii_control(c) && !is_escaped_printable(c)
}

/// The upper-case hexadecimal digit for `n`, which is below sixteen.
pub open spec fn hex_upper(n: nat) -> char {
    if n < 10 { digit_char(n) }
    else if n == 10 { 'A' }
    else if n == 11 { 'B' }
    else if n == 12 { 'C' }
    else if n == 13 { 'D' }
    else if n == 14 { 'E' }
    else { 'F' }
}

/// Each byte written as `%` and two upper-case hexadecimal digits.
pub open spec fn escape_bytes(bs: Seq<u8>) -> Seq<char>
    decreases bs.len(),
{
    if bs.len() == 0 {
        seq![]
    } else {
        seq!['%', hex_upper(bs[0] as nat / 16), hex_upper(bs[0] as nat % 16)]
            + escape_bytes(bs.drop_first())
    }
}

/// One character of a query value after percent-encoding: a safe character
/// stays, any other has each byte of its UTF-8 form escaped.
pub open spec fn encode_char(c: char) -> Seq<char> {
    if is_query_safe(c) {
        seq![c]
    } else {
        escape_bytes(encode_scalar(c as u32))
    }
}

/// A query value after percent-encoding, character by character.
pub open spec fn percent_encoded(s: Seq<char>) -> Seq<char>
    decreases s.len(),
{
    if s.len() == 0 {
        seq![]
    } else {
        encode_char(s[0]) + percent_encoded(s.drop_first())
    }
}

/// Whether `c` stands unchanged when only the control characters and the
/// characters outside ASCII are escaped.
pub open spec fn is_control_safe(c: char) -> bool {
    c < '\u{80}' && !is_ascii_control(c)
}

/// A text with the control characters and the characters outside ASCII
/// escaped, byte by byte of their UTF-8 form.
pub open spec fn controls_encoded(s: Seq<char>) -> Seq<char>
    decreases s.len(),
{
    if s.len() == 0 {
        seq![]
    } else {
        (if is_control_safe(s[0]) {
            seq![s[0]]
        } else {
            escape_bytes(encode_scalar(s[0] as u32))
        }) + controls_encoded(s.drop_first())
    }
}

/// A text with each escaped printable character escaped.
pub open spec fn printables_escaped(s: Seq<char>) -> Seq<char>
    decreases s.len(),
{
    if s.len() == 0 {
        seq![]
    } else {
        (if is_escaped_printable(s[0]) {
            escape_bytes(encode_scalar(s[0] as u32))
        } else {
            seq![s[0]]
        }) + printables_escaped(s.drop_first())
    }
}

/// Relies on `percent_encoding::utf8_percent_encode` with its set `CONTROLS`,
/// written out through its `Display`: each byte of the UTF-8 form of `s` that
/// is a control character or is not ASCII becomes `%` and two upper-case
/// hexadecimal digits, and the other characters are kept.
#[verifier::external_body]
fn percent_encode_controls(s: &str) -> (r: String)
    ensures
        r@ == controls_encoded(s@),
{
    utf8_percent_encode(s, CONTROLS).to_string()
}

proof fn lemma_escape_printables_append(a: Seq<char>, b: Seq<char>)
    ensures
        printables_escaped(a + b) == printables_escaped(a) + printables_escaped(b),
    decreases a.len(),
{
    if a.len() == 0 {
        assert(a + b =~= b);
    } else {
        lemma_escape_printables_append(a.drop_first(), b);
        assert((a + b).drop_first() =~= a.drop_first() + b);
        assert((a + b)[0] == a[0]);
    }
}

proof fn lemma_escape_printables_single(c: char)
    ensures
        printables_escaped(seq![c]) == (if is_escaped_printable(c) {
            escape_bytes(encode_scalar(c as u32))
        } else {
            seq![c]
        }),
{
    assert(seq![c].drop_first() =~= seq![]);
    assert(seq![c][0] == c);
    assert(printables_escaped(Seq::<char>::empty()) == Seq::<char>::empty());
    let head = if is_escaped_printable(c) { escape_bytes(encode_scalar(c as u32)) } else { seq![c] };
    assert(head + seq![] =~= head);
}

proof fn lemma_escape_printables_identity(t: Seq<char>)
    requires
        forall|i: int| 0 <= i < t.len() ==> !is_escaped_printable(#[trigger] t[i]),
    ensures
        printables_escaped(t) == t,
    decreases t.len(),
{
    if t.len() > 0 {
        let rest = t.drop_first();
        assert forall|i: int| 0 <= i < rest.len() implies !is_escaped_printable(#[trigger] rest[i]) by {
            assert(rest[i] == t[i + 1]);
        }
        lemma_escape_printables_identity(rest);
        assert(seq![t[0]] + rest =~= t);
    }
}

/// The escape of an ASCII character: `%` and the two hexadecimal digits of its code.
proof fn lemma_escape_ascii(c: char)
    requires
        c < '\u{80}',
    ensures
        escape_bytes(encode_scalar(c as u32)) == seq![
            '%',
            hex_upper((c as u32) as nat / 16),
            hex_upper((c as u32) as nat % 16),
        ],
{
    let x = c as u32;
    assert(x < 0x80);
    assert((x & 0x7Fu32) == x) by (bit_vector)
        requires
            x < 0x80u32,
    ;
    let bs = encode_scalar(x);
    assert(bs =~= seq![x as u8]);
    assert(bs.drop_first() =~= seq![]);
    assert(escape_bytes(Seq::<u8>::empty()) == Seq::<char>::empty());
    let head = seq!['%', hex_upper(bs[0] as nat / 16), hex_upper(bs[0] as nat % 16)];
    assert(head + seq![] =~= head);
    assert(escape_bytes(bs) =~= head);
}

/// Escaping the printable characters that need it after the control
/// characters gives the full encoding of a query value.
proof fn lemma_two_step_encoding(s: Seq<char>)
    ensures
        printables_escaped(controls_encoded(s)) == percent_encoded(s),
    decreases s.len(),
{
    if s.len() > 0 {
        let c = s[0];
        let head = if is_control_safe(c) { seq![c] } else { escape_bytes(encode_scalar(c as u32)) };
        lemma_two_step_encoding(s.drop_first());
        lemma_escape_printables_append(head, controls_encoded(s.drop_first()));
        if is_control_safe(c) {
            lemma_escape_printables_single(c);
            assert(printables_escaped(head) == encode_char(c));
        } else {
            lemma_escape_bytes_safe(encode_scalar(c as u32));
            lemma_escape_printables_identity(head);
        }
    }
}

fn is_escaped_printable_char(c: char) -> (r: bool)
    ensures
        r == is_escaped_printable(c),
{
    c == ' ' || c == '"' || c == ':' || c == '/' || c == '?' || c == '#' || c == '[' || c == ']'
        || c == '@' || c == '!' || c == '$' || c == '&' || c == '\'' || c == '(' || c == ')'
        || c == '*' || c == '+' || c == ',' || c == ';' || c == '='
}

fn hex_str(d: u32) -> (r: &'static str)
    requires
        d < 16,
    ensures
        r@ == seq![hex_upper(d as nat)],
{
    if d < 10 {
        digit_str(d as u64)
    } else if d == 10 {
        proof { reveal_strlit("A"); }
        "A"
    } else if d == 11 {
        proof { reveal_strlit("B"); }
        "B"
    } else if d == 12 {
        proof { reveal_strlit("C"); }
        "C"
    } else if d == 13 {
        proof { reveal_strlit("D"); }
        "D"
    } else if d == 14 {
        proof { reveal_strlit("E"); }
        "E"
    } else {
        proof { reveal_strlit("F"); }
        "F"
    }
}

/// Percent-encodes a free-text value for a URL query string: control
/// characters, space, double quote, the reserved URL delimiters and every
/// character outside ASCII are escaped byte by byte of their UTF-8 form; any
/// other character, `%` among them, is kept.
pub fn encode_query_value(s: &str) -> (r: String)
    ensures
        r@ == percent_encoded(s@),
{
    let t = percent_encode_controls(s);
    let t = t.as_str();
    let len = t.unicode_len();
    let mut out = String::new();
    let mut run_start: usize = 0;
    let mut i: usize = 0;
    while i < len
        invariant
            run_start <= i <= len,
            len == t@.len(),
            out@ + t@.subrange(run_start as int, i as int) == printables_escaped(t@.subrange(0, i as int)),
            forall|k: int| run_start <= k < i ==> !is_escaped_printable(#[trigger] t@[k]),
        decreases len - i,
    {
        let c = t.get_char(i);
        proof {
            let pre = t@.subrange(0, i as int);
            lemma_escape_printables_append(pre, seq![c]);
            assert(t@.subrange(0, i + 1) =~= pre + seq![c]);
            lemma_escape_printables_single(c);
        }
        if is_escaped_printable_char(c) {
            out.append(t.substring_char(run_start, i));
            let code = c as u32;
            proof {
                lemma_escape_ascii(c);
                reveal_strlit("%");
            }
            out.append("%");
            out.append(hex_str(code / 16));
            out.append(hex_str(code % 16));
            run_start = i + 1;
            assert(out@ + t@.subrange(run_start as int, i + 1) =~= printables_escaped(t@.subrange(0, i + 1)));
        } else {
            assert(out@ + t@.subrange(run_start as int, i + 1) =~= printables_escaped(t@.subrange(0, i + 1)));
        }
        i = i + 1;
    }
    out.append(t.substring_char(run_start, len));
    proof {
        assert(t@.subrange(0, len as int) =~= t@);
        lemma_two_step_encoding(s@);
    }
    out
}

proof fn lemma_escape_bytes_safe(bs: Seq<u8>)
    ensures
        forall|i: int| 0 <= i < escape_bytes(bs).len() ==> is_query_safe(#[trigger] escape_bytes(bs)[i]),
    decreases bs.len(),
{
    if bs.len() > 0 {
        lemma_escape_bytes_safe(bs.drop_first());
        let head = seq!['%', hex_upper(bs[0] as nat / 16), hex_upper(bs[0] as nat % 16)];
        let tail = escape_bytes(bs.drop_first());
        assert forall|i: int| 0 <= i < escape_bytes(bs).len() implies is_query_safe(
            #[trigger] escape_bytes(bs)[i],
        ) by {
            if i >= 3 {
                assert(escape_bytes(bs)[i] == tail[i - 3]);
            }
        }
    }
}

/// Every character of a percent-encoded value is one that encoding keeps.
pub proof fn lemma_encoded_is_safe(s: Seq<char>)
    ensures
        forall|i: int| 0 <= i < percent_encoded(s).len() ==> is_query_safe(#[trigger] percent_encoded(s)[i]),
    decreases s.len(),
{
    if s.len() > 0 {
        lemma_encoded_is_safe(s.drop_first());
        let head = encode_char(s[0]);
        let tail = percent_encoded(s.drop_first());
        if !is_query_safe(s[0]) {
            lemma_escape_bytes_safe(encode_scalar(s[0] as u32));
        }
        assert forall|i: int| 0 <= i < percent_encoded(s).len() implies is_query_safe(
            #[trigger] percent_encoded(s)[i],
        ) by {
            if i >= head.len() {
                assert(percent_encoded(s)[i] == tail[i - head.len()]);
            } else {
                assert(percent_encoded(s)[i] == head[i]);
            }
        }
    }
}

/// Encoding a value made of safe characters alone leaves it as it is.
pub proof fn lemma_encode_safe_is_identity(s: Seq<char>)
    requires
        forall|i: int| 0 <= i < s.len() ==> is_query_safe(#[trigger] s[i]),
    ensures
        percent_encoded(s) == s,
    decreases s.len(),
{
    if s.len() > 0 {
        assert(is_query_safe(s[0]));
        let rest = s.drop_first();
        assert forall|i: int| 0 <= i < rest.len() implies is_query_safe(#[trigger] rest[i]) by {
            assert(rest[i] == s[i + 1]);
        }
        lemma_encode_safe_is_identity(rest);
        assert(seq![s[0]] + rest =~= s);
    }
}

/// A percent-encoded value holds no space, no double quote and no reserved
/// URL delimiter, and encoding it a second time changes nothing.
pub proof fn lemma_encoding_escapes_delimiters(s: Seq<char>)
    ensures
        forall|i: int| 0 <= i < percent_encoded(s).len() ==> #[trigger] percent_encoded(s)[i] != ' '
            && percent_encoded(s)[i] != '"' && !is_reserved_delimiter(percent_encoded(s)[i]),
        percent_encoded(percent_encoded(s)) == percent_encoded(s),
{
    lemma_encoded_is_safe(s);
    lemma_encode_safe_is_identity(percent_encoded(s));
}

} // verus!
