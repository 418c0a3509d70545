//! Text helpers over the char and UTF-8 models of `vstd`.
use vstd::prelude::*;
use vstd::utf8::{valid_utf8, decode_utf8, encode_utf8};
use vstd::string::{StrSliceExecFns, StringSliceAdditionalSpecFns};

verus! {

broadcast use vstd::utf8::group_utf8_lib;

/// `String::from_utf8`: the bytes become a string exactly when they are valid
/// UTF-8, and the string's UTF-8 encoding is then those same bytes.
#[verifier::external_body]
pub(crate) fn string_from_utf8(bytes: Vec<u8>) -> (r: Option<String>)
    ensures
        r is Some <==> valid_utf8(bytes@),
        r matches Some(s) ==> encode_utf8(s@) == bytes@ && s@ == decode_utf8(bytes@),
{
    String::from_utf8(bytes).ok()
}

/// `std::str::from_utf8`: the bytes are a string slice exactly when they are
/// valid UTF-8, and the slice's UTF-8 encoding is then those same bytes.
#[verifier::external_body]
pub(crate) fn str_from_utf8(bytes: &[u8]) -> (r: Option<&str>)
    ensures
        r is Some <==> valid_utf8(bytes@),
        r matches Some(s) ==> encode_utf8(s@) == bytes@ && s@ == decode_utf8(bytes@),
{
    std::str::from_utf8(bytes).ok()
}

/// `String::push`: appends one char.
#[verifier::external_body]
pub(crate) fn push_char(s: &mut String, c: char)
    ensures
        final(s)@ == old(s)@.push(c),
{
    s.push(c)
}

/// The UTF-8 bytes of a string.
pub fn string_bytes(s: &String) -> (r: &[u8])
    ensures
        r@ == encode_utf8(s@),
{
    s.as_str().as_bytes()
}


/// The chars of a string slice, in order.
pub fn chars_of(s: &str) -> (r: Vec<char>)
    ensures
        r@ == s@,
{
    let n = s.unicode_len();
    let mut r: Vec<char> = Vec::new();
    let mut i: usize = 0;
    while i < n
        invariant
            n == s@.len(),
            i <= n,
            r@ == s@.subrange(0, i as int),
        decreases n - i,
    {
        r.push(s.get_char(i));
        i = i + 1;
        assert(r@ =~= s@.subrange(0, i as int));
    }
    assert(s@.subrange(0, n as int) =~= s@);
    r
}

/// Number of chars before the first `\n` (all of them when there is none).
pub open spec fn line_len(s: Seq<char>) -> nat
    decreases s.len(),
{
    if s.len() == 0 || s[0] == '\n' {
        0
    } else {
        1 + line_len(s.drop_first())
    }
}

/// The lines of a text as `str::lines` yields them: split after each `\n`,
/// the `\n` and a `\r` right before it dropped, no empty line after a final
/// `\n`.
pub open spec fn lines(s: Seq<char>) -> Seq<Seq<char>>
    decreases s.len(),
{
    if s.len() == 0 {
        seq![]
    } else {
        let k = line_len(s) as int;
        if k < s.len() {
            let line = if k > 0 && s[k - 1] == '\r' {
                s.subrange(0, k - 1)
            } else {
                s.subrange(0, k)
            };
            seq![line] + lines(s.subrange(k + 1, s.len() as int))
        } else {
            seq![s]
        }
    }
}

/// The value of the first line of the form `name=value`.
pub open spec fn field_in_lines(ls: Seq<Seq<char>>, name: Seq<char>) -> Option<Seq<char>>
    decreases ls.len(),
{
    if ls.len() == 0 {
        None
    } else if ls[0].len() > name.len() && ls[0].subrange(0, name.len() as int) == name
        && ls[0][name.len() as int] == '=' {
        Some(ls[0].subrange(name.len() as int + 1, ls[0].len() as int))
    } else {
        field_in_lines(ls.drop_first(), name)
    }
}

/// The value of the first line of `text` that reads `name=value`.
pub open spec fn spec_field(text: Seq<char>, name: Seq<char>) -> Option<Seq<char>> {
    field_in_lines(lines(text), name)
}

proof fn lemma_line_len_bound(s: Seq<char>)
    ensures
        line_len(s) <= s.len(),
        line_len(s) < s.len() ==> s[line_len(s) as int] == '\n',
        forall|j: int| 0 <= j < line_len(s) ==> s[j] != '\n',
    decreases s.len(),
{
    if s.len() > 0 && s[0] != '\n' {
        lemma_line_len_bound(s.drop_first());
        assert forall|j: int| 0 <= j < line_len(s) implies s[j] != '\n' by {
            if j > 0 {
                assert(s[j] == s.drop_first()[j - 1]);
            }
        }
    }
}

proof fn lemma_line_len_step(s: Seq<char>, i: int)
    requires
        0 <= i < s.len(),
        s[i] != '\n',
    ensures
        line_len(s.subrange(i, s.len() as int)) == 1 + line_len(s.subrange(i + 1, s.len() as int)),
{
    let t = s.subrange(i, s.len() as int);
    assert(t.drop_first() =~= s.subrange(i + 1, s.len() as int));
}

/// Whether `cs[start..end]` reads `name=`.
fn line_has_key(cs: &Vec<char>, start: usize, end: usize, name: &Vec<char>) -> (b: bool)
    requires
        start <= end <= cs@.len(),
    ensures
        b == (end - start > name@.len() && cs@.subrange(start as int, start + name@.len())
            == name@ && cs@[start + name@.len()] == '='),
{
    let n = name.len();
    if end - start <= n {
        return false;
    }
    let mut i: usize = 0;
    while i < n
        invariant
            start + n < end <= cs@.len(),
            n == name@.len(),
            i <= n,
            forall|j: int| 0 <= j < i ==> cs@[start + j] == name@[j],
        decreases n - i,
    {
        if cs[start + i] != name[i] {
            proof {
                assert(cs@.subrange(start as int, start + n)[i as int] != name@[i as int]);
            }
            return false;
        }
        i = i + 1;
    }
    assert(cs@.subrange(start as int, start + n) =~= name@);
    cs[start + n] == '='
}

/// `text.lines().find_map(|line| line.strip_prefix(name)?.strip_prefix('='))`.
pub fn field(text: &str, name: &str) -> (r: Option<String>)
    ensures
        match (r, spec_field(text@, name@)) {
            (Some(v), Some(w)) => v@ == w,
            (None, None) => true,
            _ => false,
        },
{
    let cs = chars_of(text);
    let ns = chars_of(name);
    let len = cs.len();
    let mut start: usize = 0;
    assert(text@.subrange(0, len as int) =~= text@);
    while start < len
        invariant
            len == cs@.len(),
            cs@ == text@,
            ns@ == name@,
            start <= len,
            spec_field(text@, name@) == field_in_lines(
                lines(text@.subrange(start as int, len as int)),
                name@,
            ),
        decreases len - start,
    {
        let ghost rest = text@.subrange(start as int, len as int);
        let mut end = start;
        while end < len && cs[end] != '\n'
            invariant
                start <= end <= len,
                len == cs@.len(),
                cs@ == text@,
                rest == text@.subrange(start as int, len as int),
                forall|j: int| start <= j < end ==> cs@[j] != '\n',
                line_len(rest) == (end - start) + line_len(text@.subrange(end as int, len as int)),
            decreases len - end,
        {
            proof {
                lemma_line_len_step(text@, end as int);
            }
            end = end + 1;
        }
        proof {
            if end < len {
                assert(text@.subrange(end as int, len as int)[0] == '\n');
            } else {
                assert(text@.subrange(end as int, len as int).len() == 0);
            }
            assert(line_len(rest) == end - start);
        }
        let line_end = if end < len && end > start && cs[end - 1] == '\r' {
            end - 1
        } else {
            end
        };
        let ghost line = text@.subrange(start as int, line_end as int);
        proof {
            assert(lines(rest)[0] =~= line);
        }
        if line_has_key(&cs, start, line_end, &ns) {
            let k = start + ns.len() + 1;
            let v = text.substring_char(k, line_end).to_owned();
            proof {
                assert(line.subrange(0, name@.len() as int) =~= cs@.subrange(
                    start as int,
                    start + name@.len(),
                ));
                assert(v@ =~= line.subrange(name@.len() as int + 1, line.len() as int));
            }
            return Some(v);
        }
        proof {
            if line.len() > name@.len() && line.subrange(0, name@.len() as int) == name@ && line[name@.len() as int] == '=' {
                assert(cs@.subrange(start as int, start + name@.len()) =~= line.subrange(0, name@.len() as int));
            }
            assert(field_in_lines(lines(rest), name@) == field_in_lines(lines(rest).drop_first(), name@));
        }
        if end == len {
            proof {
                assert(lines(rest) =~= seq![rest]);
                assert(lines(rest).drop_first().len() == 0);
                assert(field_in_lines(lines(rest).drop_first(), name@) is None);
            }
            return None;
        }
        proof {
            assert(rest.subrange((end - start) + 1, rest.len() as int) =~= text@.subrange(end + 1, len as int));
            assert(lines(rest).drop_first() =~= lines(text@.subrange(end + 1, len as int)));
        }
        start = end + 1;
    }
    proof {
        assert(text@.subrange(start as int, len as int).len() == 0);
    }
    None
}


/// The value of an ASCII hexadecimal digit.
pub open spec fn hex_val(b: u8) -> Option<u8> {
    if 0x30 <= b <= 0x39 {
        Some((b - 0x30) as u8)
    } else if 0x61 <= b <= 0x66 {
        Some((b - 0x61 + 10) as u8)
    } else if 0x41 <= b <= 0x46 {
        Some((b - 0x41 + 10) as u8)
    } else {
        None
    }
}

/// `u8::from_str_radix(s, 16)` on a two-byte `s`: two hex digits, or a `+`
/// sign followed by one hex digit.
pub open spec fn radix16_pair(b0: u8, b1: u8) -> Option<u8> {
    match (hex_val(b0), hex_val(b1)) {
        (Some(h), Some(l)) => Some((h * 16 + l) as u8),
        _ => if b0 == 0x2b {
            hex_val(b1)
        } else {
            None
        },
    }
}

/// The 16 bytes that 32 radix-16 byte pairs spell, if every pair parses.
pub open spec fn spec_hex_id(b: Seq<u8>) -> Option<Seq<u8>> {
    if b.len() == 32 && forall|i: int| 0 <= i < 16 ==> (#[trigger] radix16_pair(b[2 * i], b[2 * i + 1])) is Some {
        Some(Seq::new(16, |i: int| radix16_pair(b[2 * i], b[2 * i + 1]).unwrap()))
    } else {
        None
    }
}

/// Slicing a 32-byte text into byte pairs stays on char boundaries.
pub open spec fn hex_pairs_on_boundaries(t: Seq<char>) -> bool {
    let b = encode_utf8(t);
    b.len() == 32 ==> forall|i: int| 0 <= i <= 16 ==> #[trigger] vstd::utf8::is_char_boundary(b, 2 * i)
}

fn hex_value(b: u8) -> (r: Option<u8>)
    ensures
        r == hex_val(b),
{
    if 0x30 <= b && b <= 0x39 {
        Some(b - 0x30)
    } else if 0x61 <= b && b <= 0x66 {
        Some(b - 0x61 + 10)
    } else if 0x41 <= b && b <= 0x46 {
        Some(b - 0x41 + 10)
    } else {
        None
    }
}

/// `u8::from_str_radix` in base 16 on the two bytes `b0 b1`.
pub fn parse_radix16_pair(b0: u8, b1: u8) -> (r: Option<u8>)
    ensures
        r == radix16_pair(b0, b1),
{
    match (hex_value(b0), hex_value(b1)) {
        (Some(h), Some(l)) => Some(h * 16 + l),
        _ => if b0 == 0x2b {
            hex_value(b1)
        } else {
            None
        },
    }
}

/// Whether every byte pair of a 32-byte text starts on a char boundary, so
/// that the text can be sliced pair by pair.
pub fn hex_pairs_sliceable(text: &str) -> (b: bool)
    ensures
        b == hex_pairs_on_boundaries(text@),
{
    if text.as_bytes().len() != 32 {
        return true;
    }
    let mut i: usize = 0;
    while i <= 16
        invariant
            i <= 17,
            text.spec_bytes().len() == 32,
            forall|j: int| 0 <= j < i ==> #[trigger] vstd::utf8::is_char_boundary(text.spec_bytes(), 2 * j),
        decreases 17 - i,
    {
        if !text.is_char_boundary(2 * i) {
            return false;
        }
        i = i + 1;
    }
    true
}

/// The 16 bytes a 32-character hexadecimal identifier spells, parsing each
/// byte pair as `u8::from_str_radix(.., 16)` does; `None` when the text is
/// not 32 bytes long or a pair does not parse.
pub fn parse_hex_id(text: &str) -> (r: Option<[u8; 16]>)
    requires
        hex_pairs_on_boundaries(text@),
    ensures
        match (r, spec_hex_id(encode_utf8(text@))) {
            (Some(id), Some(v)) => id@ == v,
            (None, None) => true,
            _ => false,
        },
{
    let b = text.as_bytes();
    if b.len() != 32 {
        return None;
    }
    let mut id = [0u8; 16];
    let mut i: usize = 0;
    while i < 16
        invariant
            b@ == encode_utf8(text@),
            b@.len() == 32,
            i <= 16,
            id@.len() == 16,
            forall|j: int| 0 <= j < i ==> (#[trigger] radix16_pair(b@[2 * j], b@[2 * j + 1])) is Some
                && id@[j] == radix16_pair(b@[2 * j], b@[2 * j + 1]).unwrap(),
        decreases 16 - i,
    {
        match parse_radix16_pair(b[2 * i], b[2 * i + 1]) {
            Some(v) => {
                id[i] = v;
            },
            None => {
                proof {
                    assert(radix16_pair(b@[2 * (i as int)], b@[2 * (i as int) + 1]) is None);
                }
                return None;
            },
        }
        i = i + 1;
    }
    proof {
        let v = Seq::new(16, |k: int| radix16_pair(b@[2 * k], b@[2 * k + 1]).unwrap());
        assert(id@ =~= v);
    }
    Some(id)
}

/// The lowercase hexadecimal digit for a value below 16.
pub open spec fn hex_char(v: int) -> char {
    if v == 0 { '0' } else if v == 1 { '1' } else if v == 2 { '2' } else if v == 3 { '3' }
    else if v == 4 { '4' } else if v == 5 { '5' } else if v == 6 { '6' } else if v == 7 { '7' }
    else if v == 8 { '8' } else if v == 9 { '9' } else if v == 10 { 'a' } else if v == 11 { 'b' }
    else if v == 12 { 'c' } else if v == 13 { 'd' } else if v == 14 { 'e' } else { 'f' }
}

/// Each byte as two lowercase hexadecimal digits (`{:02x}`).
pub open spec fn hex_lower(b: Seq<u8>) -> Seq<char> {
    Seq::new(2 * b.len(), |i: int| if i % 2 == 0 { hex_char((b[i / 2] / 16) as int) } else { hex_char((b[i / 2] % 16) as int) })
}

fn hex_digit_char(v: u8) -> (c: char)
    requires
        v < 16,
    ensures
        c == hex_char(v as int),
{
    if v == 0 { '0' } else if v == 1 { '1' } else if v == 2 { '2' } else if v == 3 { '3' }
    else if v == 4 { '4' } else if v == 5 { '5' } else if v == 6 { '6' } else if v == 7 { '7' }
    else if v == 8 { '8' } else if v == 9 { '9' } else if v == 10 { 'a' } else if v == 11 { 'b' }
    else if v == 12 { 'c' } else if v == 13 { 'd' } else if v == 14 { 'e' } else { 'f' }
}

/// Appends each byte of `bytes` to `out` as two lowercase hexadecimal digits.
pub fn push_hex_lower(out: &mut String, bytes: &[u8])
    ensures
        final(out)@ == old(out)@ + hex_lower(bytes@),
{
    let mut i: usize = 0;
    while i < bytes.len()
        invariant
            i <= bytes@.len(),
            out@ == old(out)@ + hex_lower(bytes@.subrange(0, i as int)),
        decreases bytes@.len() - i,
    {
        let b = bytes[i];
        push_char(out, hex_digit_char(b / 16));
        push_char(out, hex_digit_char(b % 16));
        proof {
            let s = bytes@.subrange(0, i + 1);
            assert(hex_lower(s) =~= hex_lower(bytes@.subrange(0, i as int)) + seq![hex_char((b / 16) as int), hex_char((b % 16) as int)]);
        }
        i = i + 1;
    }
    assert(bytes@.subrange(0, bytes@.len() as int) =~= bytes@);
}


/// Whether two string slices hold the same chars.
pub fn str_eq(a: &str, b: &str) -> (r: bool)
    ensures
        r == (a@ == b@),
{
    let x = chars_of(a);
    let y = chars_of(b);
    if x.len() != y.len() {
        return false;
    }
    let mut i: usize = 0;
    while i < x.len()
        invariant
            x@ == a@,
            y@ == b@,
            x@.len() == y@.len(),
            i <= x@.len(),
            forall|j: int| 0 <= j < i ==> x@[j] == y@[j],
        decreases x@.len() - i,
    {
        if x[i] != y[i] {
            return false;
        }
        i = i + 1;
    }
    assert(a@ =~= b@);
    true
}

/// Whether a text contains the char `c`.
pub open spec fn has_char(s: Seq<char>, c: char) -> bool {
    exists|i: int| 0 <= i < s.len() && s[i] == c
}

/// `lines` of a first line without `\n` (and not ending in `\r`), a `\n`,
/// and the rest, is that line followed by the lines of the rest.
pub proof fn lemma_lines_cons(a: Seq<char>, rest: Seq<char>)
    requires
        !has_char(a, '\n'),
        a.len() > 0 ==> a.last() != '\r',
    ensures
        lines(a + seq!['\n'] + rest) == seq![a] + lines(rest),
    decreases a.len(),
{
    let s = a + seq!['\n'] + rest;
    lemma_line_len_prefix(a, rest);
    assert(line_len(s) == a.len());
    assert(s.subrange(0, a.len() as int) =~= a);
    assert(s.subrange(a.len() as int + 1, s.len() as int) =~= rest);
}

proof fn lemma_line_len_prefix(a: Seq<char>, rest: Seq<char>)
    requires
        !has_char(a, '\n'),
    ensures
        line_len(a + seq!['\n'] + rest) == a.len(),
    decreases a.len(),
{
    let s = a + seq!['\n'] + rest;
    if a.len() > 0 {
        assert(a[0] != '\n');
        assert(!has_char(a.drop_first(), '\n')) by {
            if has_char(a.drop_first(), '\n') {
                let i = choose|i: int| 0 <= i < a.drop_first().len() && a.drop_first()[i] == '\n';
                assert(a[i + 1] == '\n');
            }
        }
        lemma_line_len_prefix(a.drop_first(), rest);
        assert(s.drop_first() =~= a.drop_first() + seq!['\n'] + rest);
    } else {
        assert(s[0] == '\n');
    }
}


proof fn lemma_hex_char_ascii(v: int)
    requires
        0 <= v < 16,
    ensures
        hex_char(v) != '\n',
        '\0' <= hex_char(v) <= '\u{7f}',
        hex_val(hex_char(v) as u8) == Some(v as u8),
        hex_char(v) as u8 != 0x2b,
{
}

/// Lowercase hexadecimal text is ASCII, holds no line break, and its bytes
/// are its chars.
pub proof fn lemma_hex_lower_ascii(t: Seq<u8>)
    ensures
        vstd::utf8::is_ascii_chars(hex_lower(t)),
        !has_char(hex_lower(t), '\n'),
        encode_utf8(hex_lower(t)).len() == 2 * t.len(),
        forall|i: int| 0 <= i < 2 * t.len() ==> encode_utf8(hex_lower(t))[i] == (#[trigger] hex_lower(t)[i]) as u8,
{
    let h = hex_lower(t);
    assert forall|i: int| 0 <= i < h.len() implies '\0' <= #[trigger] h[i] <= '\u{7f}' && h[i] != '\n' by {
        if i % 2 == 0 {
            lemma_hex_char_ascii((t[i / 2] / 16) as int);
        } else {
            lemma_hex_char_ascii((t[i / 2] % 16) as int);
        }
    }
    vstd::utf8::is_ascii_chars_encode_utf8(h);
}

/// The lowercase hexadecimal spelling of 16 bytes parses back to them, pair
/// by pair on char boundaries.
pub proof fn lemma_hex_id_roundtrip(t: Seq<u8>)
    requires
        t.len() == 16,
    ensures
        spec_hex_id(encode_utf8(hex_lower(t))) == Some(t),
        hex_pairs_on_boundaries(hex_lower(t)),
{
    let h = hex_lower(t);
    let b = encode_utf8(h);
    lemma_hex_lower_ascii(t);
    assert forall|i: int| 0 <= i < 16 implies (#[trigger] radix16_pair(b[2 * i], b[2 * i + 1])) == Some(t[i]) by {
        assert(h[2 * i] == hex_char((t[i] / 16) as int));
        assert(h[2 * i + 1] == hex_char((t[i] % 16) as int));
        lemma_hex_char_ascii((t[i] / 16) as int);
        lemma_hex_char_ascii((t[i] % 16) as int);
        assert(b[2 * i] == h[2 * i] as u8);
        assert(b[2 * i + 1] == h[2 * i + 1] as u8);
    }
    assert(Seq::new(16, |i: int| radix16_pair(b[2 * i], b[2 * i + 1]).unwrap()) =~= t);
    vstd::utf8::encode_utf8_valid_utf8(h);
    vstd::utf8::is_char_boundary_start_end_of_seq(b);
    assert forall|i: int| 0 <= i <= 16 implies #[trigger] vstd::utf8::is_char_boundary(b, 2 * i) by {
        if i < 16 {
            assert(b[2 * i] == h[2 * i] as u8);
            vstd::utf8::is_char_boundary_iff_not_is_continuation_byte(b, 2 * i);
        }
    }
}


/// `char::is_control`: the Unicode general category Cc, U+0000 to U+001F and
/// U+007F to U+009F.
pub open spec fn is_control(c: char) -> bool {
    (c as u32) <= 0x1f || (0x7f <= (c as u32) && (c as u32) <= 0x9f)
}

/// `char::is_whitespace`: the Unicode White_Space property.
pub open spec fn is_whitespace(c: char) -> bool {
    let u = c as u32;
    (9 <= u && u <= 13) || u == 0x20 || u == 0x85 || u == 0xa0 || u == 0x1680 || (0x2000 <= u && u
        <= 0x200a) || u == 0x2028 || u == 0x2029 || u == 0x202f || u == 0x205f || u == 0x3000
}

pub fn char_is_control(c: char) -> (b: bool)
    ensures
        b == is_control(c),
{
    let u = c as u32;
    u <= 0x1f || (0x7f <= u && u <= 0x9f)
}

pub fn char_is_whitespace(c: char) -> (b: bool)
    ensures
        b == is_whitespace(c),
{
    let u = c as u32;
    (9 <= u && u <= 13) || u == 0x20 || u == 0x85 || u == 0xa0 || u == 0x1680 || (0x2000 <= u && u
        <= 0x200a) || u == 0x2028 || u == 0x2029 || u == 0x202f || u == 0x205f || u == 0x3000
}

/// Leading whitespace removed.
pub open spec fn trim_start(s: Seq<char>) -> Seq<char>
    decreases s.len(),
{
    if s.len() > 0 && is_whitespace(s[0]) {
        trim_start(s.drop_first())
    } else {
        s
    }
}

/// Trailing whitespace removed.
pub open spec fn trim_end(s: Seq<char>) -> Seq<char>
    decreases s.len(),
{
    if s.len() > 0 && is_whitespace(s.last()) {
        trim_end(s.drop_last())
    } else {
        s
    }
}

/// `str::trim`.
pub open spec fn trim(s: Seq<char>) -> Seq<char> {
    trim_end(trim_start(s))
}

/// `str::trim` on a char sequence.
pub fn trim_chars(s: &Vec<char>) -> (r: Vec<char>)
    ensures
        r@ == trim(s@),
{
    let n = s.len();
    let mut i: usize = 0;
    assert(s@.subrange(0, n as int) =~= s@);
    while i < n && char_is_whitespace(s[i])
        invariant
            n == s@.len(),
            i <= n,
            trim_start(s@) == trim_start(s@.subrange(i as int, n as int)),
        decreases n - i,
    {
        proof {
            assert(s@.subrange(i as int, n as int).drop_first() =~= s@.subrange(i + 1, n as int));
        }
        i = i + 1;
    }
    proof {
        assert(s@.subrange(0, n as int) =~= s@);
    }
    let mut j: usize = n;
    while j > i && char_is_whitespace(s[j - 1])
        invariant
            n == s@.len(),
            i <= j <= n,
            trim_start(s@) == s@.subrange(i as int, n as int),
            trim(s@) == trim_end(s@.subrange(i as int, j as int)),
        decreases j - i,
    {
        proof {
            assert(s@.subrange(i as int, j as int).drop_last() =~= s@.subrange(i as int, j - 1));
        }
        j = j - 1;
    }
    let mut r: Vec<char> = Vec::new();
    let mut k: usize = i;
    while k < j
        invariant
            n == s@.len(),
            i <= k <= j <= n,
            r@ == s@.subrange(i as int, k as int),
        decreases j - k,
    {
        r.push(s[k]);
        k = k + 1;
        assert(r@ =~= s@.subrange(i as int, k as int));
    }
    r
}

/// A string holding exactly the chars of `cs`.
pub fn string_from_chars(cs: &[char]) -> (r: String)
    ensures
        r@ == cs@,
{
    let mut r = String::new();
    let mut i: usize = 0;
    while i < cs.len()
        invariant
            i <= cs@.len(),
            r@ == cs@.subrange(0, i as int),
        decreases cs@.len() - i,
    {
        push_char(&mut r, cs[i]);
        i = i + 1;
        assert(r@ =~= cs@.subrange(0, i as int));
    }
    assert(cs@.subrange(0, cs@.len() as int) =~= cs@);
    r
}

/// The chars that are not control chars, in order.
pub open spec fn drop_controls(s: Seq<char>) -> Seq<char>
    decreases s.len(),
{
    if s.len() == 0 {
        s
    } else if is_control(s.last()) {
        drop_controls(s.drop_last())
    } else {
        drop_controls(s.drop_last()).push(s.last())
    }
}

/// `s.chars().filter(|c| !c.is_control())`.
pub fn without_controls(s: &Vec<char>) -> (r: Vec<char>)
    ensures
        r@ == drop_controls(s@),
{
    let mut r: Vec<char> = Vec::new();
    let mut i: usize = 0;
    while i < s.len()
        invariant
            i <= s@.len(),
            r@ == drop_controls(s@.subrange(0, i as int)),
        decreases s@.len() - i,
    {
        let c = s[i];
        if !char_is_control(c) {
            r.push(c);
        }
        i = i + 1;
        proof {
            let t = s@.subrange(0, i as int);
            assert(t.drop_last() =~= s@.subrange(0, i - 1));
            assert(t.last() == c);
            assert(drop_controls(t) == (if !is_control(c) {
                drop_controls(t.drop_last()).push(c)
            } else {
                drop_controls(t.drop_last())
            }));
            assert(r@ =~= drop_controls(t));
        }
    }
    assert(s@.subrange(0, s@.len() as int) =~= s@);
    r
}

/// ASCII lowercase letters made uppercase, every other char kept.
pub open spec fn ascii_upper(c: char) -> char {
    if 'a' <= c && c <= 'z' {
        ((c as u32) - 32) as char
    } else {
        c
    }
}

/// `str::to_ascii_uppercase`.
pub fn to_ascii_uppercase(s: &str) -> (r: String)
    ensures
        r@ == s@.map_values(|c: char| ascii_upper(c)),
{
    let cs = chars_of(s);
    let mut out: Vec<char> = Vec::new();
    let mut i: usize = 0;
    while i < cs.len()
        invariant
            cs@ == s@,
            i <= cs@.len(),
            out@ == s@.subrange(0, i as int).map_values(|c: char| ascii_upper(c)),
        decreases cs@.len() - i,
    {
        let c = cs[i];
        let u = if 'a' <= c && c <= 'z' {
            ((c as u32) - 32) as u8 as char
        } else {
            c
        };
        proof {
            if 'a' <= c && c <= 'z' {
                assert(((c as u32) - 32) as u8 as char == ((c as u32) - 32) as char);
            }
        }
        out.push(u);
        i = i + 1;
        assert(out@ =~= s@.subrange(0, i as int).map_values(|c: char| ascii_upper(c)));
    }
    assert(s@.subrange(0, s@.len() as int) =~= s@);
    string_from_chars(out.as_slice())
}

/// The decimal digits of `n`, most significant first, without leading zeros.
pub open spec fn decimal(n: nat) -> Seq<char>
    decreases n,
{
    if n < 10 {
        seq![hex_char(n as int)]
    } else {
        decimal(n / 10).push(hex_char((n % 10) as int))
    }
}

/// `s` left-padded with `0` to at least `width` chars, as `{:0width$}` pads.
pub open spec fn zero_pad(s: Seq<char>, width: nat) -> Seq<char> {
    if s.len() >= width {
        s
    } else {
        Seq::new((width - s.len()) as nat, |i: int| '0') + s
    }
}

/// An ASCII decimal digit.
pub open spec fn is_ascii_digit(c: char) -> bool {
    '0' <= c && c <= '9'
}

/// `format!("{:0width$}", n)`: the decimal digits of `n`, zero-padded to at
/// least `width` chars.
pub fn format_zero_padded(n: u64, width: usize) -> (r: String)
    ensures
        r@ == zero_pad(decimal(n as nat), width as nat),
{
    let mut digits: Vec<char> = Vec::new();
    let mut m: u64 = n;
    while m >= 10
        invariant
            decimal(n as nat) == decimal(m as nat) + digits@,
        decreases m,
    {
        let ghost before = digits@;
        digits.insert(0, hex_digit_char((m % 10) as u8));
        proof {
            assert(decimal(m as nat) == decimal((m / 10) as nat).push(hex_char((m % 10) as int)));
            assert(decimal((m / 10) as nat).push(hex_char((m % 10) as int)) + before =~= decimal((m / 10) as nat) + digits@);
        }
        m = m / 10;
    }
    let ghost before = digits@;
    digits.insert(0, hex_digit_char(m as u8));
    assert(digits@ =~= decimal(m as nat) + before);
    while digits.len() < width
        invariant
            zero_pad(decimal(n as nat), width as nat) == zero_pad(digits@, width as nat),
        decreases width - digits@.len(),
    {
        let ghost s = digits@;
        digits.insert(0, '0');
        proof {
            let k = (width - s.len()) as nat;
            assert(Seq::new(k, |i: int| '0') + s =~= Seq::new((k - 1) as nat, |i: int| '0') + digits@);
        }
    }
    string_from_chars(digits.as_slice())
}

/// The decimal digits of a number are ASCII digits.
pub proof fn lemma_decimal_digits(n: nat)
    ensures
        forall|i: int| 0 <= i < decimal(n).len() ==> is_ascii_digit(#[trigger] decimal(n)[i]),
        decimal(n).len() >= 1,
    decreases n,
{
    if n >= 10 {
        lemma_decimal_digits(n / 10);
    }
}

/// `10^k`.
pub open spec fn pow10(k: nat) -> nat
    decreases k,
{
    if k == 0 {
        1
    } else {
        10 * pow10((k - 1) as nat)
    }
}

/// A number below `10^k` has at most `k` digits (`k` at least one).
pub proof fn lemma_decimal_len(n: nat, k: nat)
    requires
        1 <= k,
        n < pow10(k),
    ensures
        decimal(n).len() <= k,
    decreases n,
{
    if n >= 10 {
        if k == 1 {
            assert(pow10(1) == 10 * pow10(0));
        }
        lemma_decimal_len(n / 10, (k - 1) as nat);
    }
}

} // verus!
