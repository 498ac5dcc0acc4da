//! Escaping and unescaping: URIs, forms, and the older `escape` and `unescape`.
use crate::text::{
    chars_of, hex_digit_value, hex_upper, hex_upper_char, hex_value, lemma_code_point, string_of,
};
use vstd::prelude::*;
use vstd::utf8::{ decode_utf8, encode_scalar, encode_utf8, encode_utf8_decode_utf8, encode_utf8_first_scalar, encode_utf8_valid_utf8, has_width_1_encoding, has_width_2_encoding, has_width_3_encoding, is_ascii_chars, is_ascii_chars_encode_utf8, last_continuation_byte, leading_byte_width_1, leading_byte_width_2, leading_byte_width_3, leading_byte_width_4, second_last_continuation_byte, third_last_continuation_byte, valid_utf8, };

verus! {

/// The text that `String::from_utf8_lossy` reads from bytes that may not be UTF-8.
pub uninterp spec fn lossy_text(bytes: Seq<u8>) -> Seq<char>;

/// `String::from_utf8` gives the text that the bytes encode, and nothing exactly where they are
/// not UTF-8.
#[verifier::external_body]
fn text_from_utf8(bytes: Vec<u8>) -> (r: Option<String>)
    ensures
        r is Some <==> valid_utf8(bytes@),
        r matches Some(s) ==> s@ == decode_utf8(bytes@),
{
    String::from_utf8(bytes).ok()
}

/// `String::from_utf8_lossy` gives the text that the bytes encode where they are UTF-8. Where they
/// are not, it replaces what it cannot read; the text is then named and not spelled out.
#[verifier::external_body]
fn text_from_utf8_lossy(bytes: &Vec<u8>) -> (r: String)
    ensures
        r@ == lossy_text(bytes@),
        valid_utf8(bytes@) ==> r@ == decode_utf8(bytes@),
{
    String::from_utf8_lossy(bytes).into_owned()
}

pub open spec fn ascii_alphanumeric(c: char) -> bool {
    '0' <= c <= '9' || 'A' <= c <= 'Z' || 'a' <= c <= 'z'
}

pub fn is_ascii_alphanumeric(c: char) -> (r: bool)
    ensures
        r == ascii_alphanumeric(c),
{
    ('0' <= c && c <= '9') || ('A' <= c && c <= 'Z') || ('a' <= c && c <= 'z')
}

/// The marks that no URI function escapes.
pub open spec fn uri_mark(c: char) -> bool {
    c == '-' || c == '_' || c == '.' || c == '!' || c == '~' || c == '*' || c == '\'' || c == '('
        || c == ')'
}

/// The characters that `encodeURI` keeps and `decodeURI` leaves escaped.
pub open spec fn uri_reserved(c: char) -> bool {
    c == ';' || c == '/' || c == '?' || c == ':' || c == '@' || c == '&' || c == '=' || c == '+' || c
        == '$' || c == ',' || c == '#'
}

pub fn is_uri_reserved(c: char) -> (r: bool)
    ensures
        r == uri_reserved(c),
{
    match c {
        ';' | '/' | '?' | ':' | '@' | '&' | '=' | '+' | '$' | ',' | '#' => true,
        _ => false,
    }
}

fn is_uri_mark(c: char) -> (r: bool)
    ensures
        r == uri_mark(c),
{
    match c {
        '-' | '_' | '.' | '!' | '~' | '*' | '\'' | '(' | ')' => true,
        _ => false,
    }
}

/// The escape of a byte: a percent sign and two upper-case hexadecimal digits.
pub open spec fn escaped_byte(b: u8) -> Seq<char> {
    seq!['%', hex_upper((b / 16) as nat), hex_upper((b % 16) as nat)]
}

/// The escapes of some bytes.
pub open spec fn escaped_bytes(b: Seq<u8>) -> Seq<char>
    decreases b.len(),
{
    if b.len() == 0 {
        Seq::empty()
    } else {
        escaped_byte(b[0]) + escaped_bytes(b.drop_first())
    }
}

pub open spec fn uri_safe(c: char, extra: Seq<char>) -> bool {
    ascii_alphanumeric(c) || uri_mark(c) || extra.contains(c)
}

/// A character in a URI: itself where it is safe, else the escapes of its UTF-8 bytes.
pub open spec fn uri_encoded_char(c: char, extra: Seq<char>) -> Seq<char> {
    if uri_safe(c, extra) {
        seq![c]
    } else {
        escaped_bytes(encode_scalar(c as u32))
    }
}

/// A text in a URI.
pub open spec fn uri_encoded(s: Seq<char>, extra: Seq<char>) -> Seq<char>
    decreases s.len(),
{
    if s.len() == 0 {
        Seq::empty()
    } else {
        uri_encoded_char(s[0], extra) + uri_encoded(s.drop_first(), extra)
    }
}

fn contains_char(cs: &Vec<char>, c: char) -> (r: bool)
    ensures
        r == cs@.contains(c),
{
    let mut i: usize = 0;
    while i < cs.len()
        invariant
            i <= cs@.len(),
            forall|j: int| 0 <= j < i ==> cs@[j] != c,
        decreases cs@.len() - i,
    {
        if cs[i] == c {
            return true;
        }
        i = i + 1;
    }
    false
}

fn push_escaped_byte(out: &mut Vec<char>, b: u8)
    ensures
        final(out)@ == old(out)@ + escaped_byte(b),
{
    out.push('%');
    out.push(hex_upper_char(b / 16));
    out.push(hex_upper_char(b % 16));
    assert(out@ =~= old(out)@ + escaped_byte(b));
}

/// Appends the escapes of the UTF-8 bytes of `c`.
fn push_escaped_char(out: &mut Vec<char>, c: char)
    ensures
        final(out)@ == old(out)@ + escaped_bytes(encode_scalar(c as u32)),
{
    let mut one: String = String::new();
    one.push(c);
    let bytes: &[u8] = one.as_str().as_bytes();
    let ghost all = encode_scalar(c as u32);
    proof {
        assert(one@ =~= seq![c]);
        assert(seq![c].drop_first() =~= Seq::<char>::empty());
        assert(encode_utf8(seq![c].drop_first()) =~= Seq::<u8>::empty());
        assert(encode_utf8(seq![c]) =~= all);
    }
    let ghost before = out@;
    let mut i: usize = 0;
    assert(all.skip(0) =~= all);
    assert(before + escaped_bytes(all) =~= out@ + escaped_bytes(all.skip(0)));
    while i < bytes.len()
        invariant
            i <= bytes@.len(),
            bytes@ == all,
            before + escaped_bytes(all) == out@ + escaped_bytes(all.skip(i as int)),
        decreases bytes@.len() - i,
    {
        let ghost prior = out@;
        push_escaped_byte(out, bytes[i]);
        assert(all.skip(i as int).drop_first() =~= all.skip(i + 1));
        assert(all.skip(i as int)[0] == all[i as int]);
        assert(prior + escaped_bytes(all.skip(i as int)) =~= out@ + escaped_bytes(all.skip(i + 1)));
        i = i + 1;
    }
    assert(out@ + escaped_bytes(all.skip(i as int)) =~= out@);
}

/// Escapes a text for a URI. Letters, digits, the marks and the characters of `extra_safe` stay.
pub fn uri_encode(s: &str, extra_safe: &str) -> (r: String)
    ensures
        r@ == uri_encoded(s@, extra_safe@),
{
    let cs: Vec<char> = chars_of(s);
    let extra: Vec<char> = chars_of(extra_safe);
    let mut out: Vec<char> = Vec::new();
    let mut i: usize = 0;
    assert(s@.skip(0) =~= s@);
    assert(out@ + uri_encoded(s@.skip(0), extra@) =~= uri_encoded(s@, extra@));
    while i < cs.len()
        invariant
            i <= cs@.len(),
            cs@ == s@,
            extra@ == extra_safe@,
            uri_encoded(s@, extra@) == out@ + uri_encoded(s@.skip(i as int), extra@),
        decreases cs@.len() - i,
    {
        let c: char = cs[i];
        let ghost prior = out@;
        if is_ascii_alphanumeric(c) || is_uri_mark(c) || contains_char(&extra, c) {
            out.push(c);
        } else {
            push_escaped_char(&mut out, c);
        }
        assert(out@ =~= prior + uri_encoded_char(c, extra@));
        assert(s@.skip(i as int).drop_first() =~= s@.skip(i + 1));
        assert(prior + uri_encoded(s@.skip(i as int), extra@) =~= out@ + uri_encoded(
            s@.skip(i + 1),
            extra@,
        ));
        i = i + 1;
    }
    assert(out@ + uri_encoded(s@.skip(i as int), extra@) =~= out@);
    string_of(&out)
}

/// The byte that an escape at the front of `b` stands for.
pub open spec fn escape_at(b: Seq<u8>) -> Option<u8> {
    if b.len() < 3 || b[0] != 0x25 {
        None
    } else {
        match (hex_value(b[1] as char), hex_value(b[2] as char)) {
            (Some(hi), Some(lo)) => Some((hi * 16 + lo) as u8),
            _ => None,
        }
    }
}

/// The next `n` escapes, all of them continuation bytes.
pub open spec fn continuations(b: Seq<u8>, n: nat) -> Option<Seq<u8>>
    decreases n,
{
    if n == 0 {
        Some(Seq::empty())
    } else {
        match escape_at(b) {
            Some(c) if 0x80 <= c <= 0xbf => match continuations(b.skip(3), (n - 1) as nat) {
                Some(rest) => Some(seq![c] + rest),
                None => None,
            },
            _ => None,
        }
    }
}

/// The number of bytes that a UTF-8 sequence with this first byte has, where it has more than one.
pub open spec fn sequence_len(b: u8) -> Option<nat> {
    if 0xc0 <= b <= 0xdf {
        Some(2)
    } else if 0xe0 <= b <= 0xef {
        Some(3)
    } else if 0xf0 <= b <= 0xf7 {
        Some(4)
    } else {
        None
    }
}

/// What stands at the front of the bytes of a URI: the bytes it decodes to, and how many it takes.
/// A byte that is no escape decodes to itself. The escape of an ASCII character decodes to that
/// character, or stays where it is reserved and `preserve` is set. Other escapes have to form one
/// UTF-8 sequence.
pub open spec fn decoded_front(b: Seq<u8>, preserve: bool) -> Option<(Seq<u8>, nat)>
    recommends
        b.len() > 0,
{
    if b[0] != 0x25 {
        Some((seq![b[0]], 1))
    } else {
        match escape_at(b) {
            None => None,
            Some(b0) => {
                if b0 < 0x80 {
                    if preserve && uri_reserved(b0 as char) {
                        Some((b.take(3), 3))
                    } else {
                        Some((seq![b0], 3))
                    }
                } else {
                    match sequence_len(b0) {
                        None => None,
                        Some(n) => match continuations(b.skip(3), (n - 1) as nat) {
                            None => None,
                            Some(rest) => {
                                if valid_utf8(seq![b0] + rest) {
                                    Some((seq![b0] + rest, 3 * n))
                                } else {
                                    None
                                }
                            },
                        },
                    }
                }
            },
        }
    }
}

/// The bytes that the bytes of a URI decode to.
pub open spec fn decoded_bytes(b: Seq<u8>, preserve: bool) -> Option<Seq<u8>>
    decreases b.len(),
{
    if b.len() == 0 {
        Some(Seq::empty())
    } else {
        match decoded_front(b, preserve) {
            None => None,
            Some((piece, used)) => {
                if used == 0 || used > b.len() {
                    None
                } else {
                    match decoded_bytes(b.skip(used as int), preserve) {
                        Some(rest) => Some(piece + rest),
                        None => None,
                    }
                }
            },
        }
    }
}

/// The text that a URI decodes to.
pub open spec fn uri_decoded(s: Seq<char>, preserve: bool) -> Option<Seq<char>> {
    match decoded_bytes(encode_utf8(s), preserve) {
        Some(b) if valid_utf8(b) => Some(decode_utf8(b)),
        _ => None,
    }
}

proof fn lemma_continuations_len(b: Seq<u8>, n: nat)
    ensures
        continuations(b, n) is Some ==> continuations(b, n)->0.len() == n && 3 * n <= b.len(),
    decreases n,
{
    if n > 0 && continuations(b, n) is Some {
        lemma_continuations_len(b.skip(3), (n - 1) as nat);
    }
}

fn escape_at_exec(b: &[u8], i: usize) -> (r: Option<u8>)
    requires
        i <= b@.len(),
    ensures
        r == escape_at(b@.skip(i as int)),
{
    let ghost t = b@.skip(i as int);
    if b.len() - i < 3 {
        return None;
    }
    assert(t[0] == b@[i as int] && t[1] == b@[i + 1] && t[2] == b@[i + 2]);
    if b[i] != 0x25 {
        return None;
    }
    match (hex_digit_value(b[i + 1] as char), hex_digit_value(b[i + 2] as char)) {
        (Some(hi), Some(lo)) => Some(hi * 16 + lo),
        _ => None,
    }
}

/// Unescapes a URI. Where `preserve_reserved` is set, the escapes of reserved characters stay. An
/// escape that is malformed or not UTF-8 is an error.
pub fn uri_decode(s: &str, preserve_reserved: bool) -> (r: Result<String, ()>)
    ensures
        match r {
            Ok(t) => uri_decoded(s@, preserve_reserved) == Some(t@),
            Err(_) => uri_decoded(s@, preserve_reserved) is None,
        },
{
    let b: &[u8] = s.as_bytes();
    let ghost all = decoded_bytes(b@, preserve_reserved);
    let mut out: Vec<u8> = Vec::new();
    let mut i: usize = 0;
    assert(b@.skip(0) =~= b@);
    proof {
        if all is Some {
            assert(out@ + all->0 =~= all->0);
        }
    }
    while i < b.len()
        invariant
            i <= b@.len(),
            b@ == encode_utf8(s@),
            all == decoded_bytes(b@, preserve_reserved),
            match decoded_bytes(b@.skip(i as int), preserve_reserved) {
                Some(rest) => all == Some(out@ + rest),
                None => all is None,
            },
        decreases b@.len() - i,
    {
        let ghost t = b@.skip(i as int);
        let ghost prior = out@;
        assert(t[0] == b@[i as int]);
        if b[i] != 0x25 {
            out.push(b[i]);
            i = i + 1;
            proof {
                assert(t.skip(1) =~= b@.skip(i as int));
                if decoded_bytes(b@.skip(i as int), preserve_reserved) is Some {
                    let rest = decoded_bytes(b@.skip(i as int), preserve_reserved)->0;
                    assert(prior + (seq![t[0]] + rest) =~= out@ + rest);
                }
            }
        } else {
            let b0: u8 = match escape_at_exec(b, i) {
                Some(x) => x,
                None => {
                    return Err(());
                },
            };
            if b0 < 0x80 {
                if preserve_reserved && is_uri_reserved(b0 as char) {
                    out.push(b[i]);
                    out.push(b[i + 1]);
                    out.push(b[i + 2]);
                    assert(out@ =~= prior + t.take(3));
                } else {
                    out.push(b0);
                    assert(out@ =~= prior + seq![b0]);
                }
                i = i + 3;
                proof {
                    assert(t.skip(3) =~= b@.skip(i as int));
                    if decoded_bytes(b@.skip(i as int), preserve_reserved) is Some {
                        let rest = decoded_bytes(b@.skip(i as int), preserve_reserved)->0;
                        let (piece, used) = decoded_front(t, preserve_reserved)->0;
                        assert(prior + (piece + rest) =~= out@ + rest);
                    }
                }
            } else {
                let n: usize = if 0xc0 <= b0 && b0 <= 0xdf {
                    2
                } else if 0xe0 <= b0 && b0 <= 0xef {
                    3
                } else if 0xf0 <= b0 && b0 <= 0xf7 {
                    4
                } else {
                    return Err(());
                };
                let mut octets: Vec<u8> = Vec::new();
                octets.push(b0);
                let ghost cs = continuations(t.skip(3), (n - 1) as nat);
                let mut k: usize = 1;
                let mut p: usize = i + 3;
                assert(t.skip(3) =~= b@.skip(p as int));
                proof {
                    if cs is Some {
                        assert(seq![b0] + cs->0 =~= octets@ + cs->0);
                    }
                }
                while k < n
                    invariant
                        1 <= k <= n <= 4,
                        i + 3 * k == p,
                        p <= b@.len(),
                        match continuations(b@.skip(p as int), (n - k) as nat) {
                            Some(rest) => cs is Some && seq![b0] + cs->0 == octets@ + rest,
                            None => cs is None,
                        },
                        b@ == encode_utf8(s@),
                        t == b@.skip(i as int),
                        i < b@.len(),
                        t[0] == 0x25,
                        escape_at(t) == Some(b0),
                        b0 >= 0x80,
                        sequence_len(b0) == Some(n as nat),
                        cs == continuations(t.skip(3), (n - 1) as nat),
                        all == decoded_bytes(b@, preserve_reserved),
                        match decoded_bytes(t, preserve_reserved) {
                            Some(rest) => all == Some(prior + rest),
                            None => all is None,
                        },
                    decreases n - k,
                {
                    let ghost u = b@.skip(p as int);
                    let c: u8 = match escape_at_exec(b, p) {
                        Some(x) => x,
                        None => {
                            return Err(());
                        },
                    };
                    if c < 0x80 || c > 0xbf {
                        return Err(());
                    }
                    let ghost held = octets@;
                    octets.push(c);
                    assert(u.len() >= 3);
                    assert(p + 3 <= b.len());
                    p = p + 3;
                    k = k + 1;
                    proof {
                        assert(u.skip(3) =~= b@.skip(p as int));
                        if continuations(u.skip(3), (n - k) as nat) is Some {
                            let rest = continuations(u.skip(3), (n - k) as nat)->0;
                            assert(held + (seq![c] + rest) =~= octets@ + rest);
                        }
                    }
                }
                assert(octets@ + Seq::<u8>::empty() =~= octets@);
                let copy: Vec<u8> = octets.clone();
                assert(copy@ =~= octets@);
                match text_from_utf8(copy) {
                    None => {
                        return Err(());
                    },
                    Some(_) => {},
                }
                out.append(&mut octets);
                i = p;
                proof {
                    assert(t.skip(3 * n as int) =~= b@.skip(i as int));
                    if decoded_bytes(b@.skip(i as int), preserve_reserved) is Some {
                        let rest = decoded_bytes(b@.skip(i as int), preserve_reserved)->0;
                        let (piece, used) = decoded_front(t, preserve_reserved)->0;
                        assert(prior + (piece + rest) =~= out@ + rest);
                    }
                }
            }
        }
    }
    assert(b@.skip(i as int) =~= Seq::<u8>::empty());
    assert(out@ + Seq::<u8>::empty() =~= out@);
    match text_from_utf8(out) {
        Some(t) => Ok(t),
        None => Err(()),
    }
}

/// The bytes of a form field after its escapes are read; anything that is no escape stays.
pub open spec fn form_bytes(b: Seq<u8>) -> Seq<u8>
    decreases b.len(),
{
    if b.len() == 0 {
        Seq::empty()
    } else {
        match escape_at(b) {
            Some(v) => seq![v] + form_bytes(b.skip(3)),
            None => seq![b[0]] + form_bytes(b.skip(1)),
        }
    }
}

/// Unescapes a form field. It takes any text: what is no escape stays, and what is not UTF-8 is
/// replaced.
pub fn percent_decode_lossy(s: &str) -> (r: String)
    ensures
        r@ == lossy_text(form_bytes(encode_utf8(s@))),
        valid_utf8(form_bytes(encode_utf8(s@))) ==> r@ == decode_utf8(form_bytes(encode_utf8(s@))),
{
    let b: &[u8] = s.as_bytes();
    let ghost all = form_bytes(b@);
    let mut out: Vec<u8> = Vec::new();
    let mut i: usize = 0;
    assert(b@.skip(0) =~= b@);
    assert(out@ + form_bytes(b@.skip(0)) =~= all);
    while i < b.len()
        invariant
            i <= b@.len(),
            b@ == encode_utf8(s@),
            all == form_bytes(b@),
            all == out@ + form_bytes(b@.skip(i as int)),
        decreases b@.len() - i,
    {
        let ghost t = b@.skip(i as int);
        let ghost prior = out@;
        assert(t[0] == b@[i as int]);
        match escape_at_exec(b, i) {
            Some(v) => {
                out.push(v);
                assert(t.len() >= 3);
                i = i + 3;
                assert(t.skip(3) =~= b@.skip(i as int));
                assert(prior + (seq![v] + form_bytes(t.skip(3))) =~= out@ + form_bytes(t.skip(3)));
            },
            None => {
                out.push(b[i]);
                i = i + 1;
                assert(t.skip(1) =~= b@.skip(i as int));
                assert(prior + (seq![t[0]] + form_bytes(t.skip(1))) =~= out@ + form_bytes(t.skip(1)));
            },
        }
    }
    assert(b@.skip(i as int) =~= Seq::<u8>::empty());
    assert(out@ + Seq::<u8>::empty() =~= out@);
    text_from_utf8_lossy(&out)
}

/// The characters that `escape` keeps.
pub open spec fn escape_safe(c: char) -> bool {
    ascii_alphanumeric(c) || c == '@' || c == '*' || c == '_' || c == '+' || c == '-' || c == '.' || c
        == '/'
}

fn is_escape_safe(c: char) -> (r: bool)
    ensures
        r == escape_safe(c),
{
    is_ascii_alphanumeric(c) || c == '@' || c == '*' || c == '_' || c == '+' || c == '-' || c == '.'
        || c == '/'
}

/// The upper-case hexadecimal digits of `n`, at least `width` of them.
pub open spec fn hex_padded(n: nat, width: nat) -> Seq<char>
    decreases n, width,
{
    if width <= 1 && n < 16 {
        seq![hex_upper(n)]
    } else {
        hex_padded(
            n / 16,
            if width > 0 {
                (width - 1) as nat
            } else {
                0
            },
        ).push(hex_upper(n % 16))
    }
}

/// A code unit as `escape` writes it.
pub open spec fn escaped_unit(n: nat) -> Seq<char> {
    seq!['%', 'u'] + hex_padded(n, 4)
}

/// The first code unit of a character beyond the basic plane.
pub open spec fn upper_half(n: nat) -> nat {
    (0xd800 + (n - 0x10000) / 0x400) as nat
}

/// The second code unit of a character beyond the basic plane.
pub open spec fn lower_half(n: nat) -> nat {
    (0xdc00 + (n - 0x10000) % 0x400) as nat
}

/// A character after `escape`: itself where it is safe, `%XX` below 256, and `%uXXXX` for each of
/// its code units above.
pub open spec fn escaped_char(c: char) -> Seq<char> {
    let n = (c as u32) as nat;
    if escape_safe(c) {
        seq![c]
    } else if n < 256 {
        seq!['%'] + hex_padded(n, 2)
    } else if n < 0x10000 {
        escaped_unit(n)
    } else {
        escaped_unit(upper_half(n)) + escaped_unit(lower_half(n))
    }
}

pub open spec fn escaped(s: Seq<char>) -> Seq<char>
    decreases s.len(),
{
    if s.len() == 0 {
        Seq::empty()
    } else {
        escaped_char(s[0]) + escaped(s.drop_first())
    }
}

fn push_hex_padded(out: &mut Vec<char>, n: u32, width: u32)
    ensures
        final(out)@ == old(out)@ + hex_padded(n as nat, width as nat),
    decreases n, width,
{
    if width <= 1 && n < 16 {
        out.push(hex_upper_char(n as u8));
        assert(out@ =~= old(out)@ + seq![hex_upper(n as nat)]);
    } else {
        push_hex_padded(
            out,
            n / 16,
            if width > 0 {
                width - 1
            } else {
                0
            },
        );
        out.push(hex_upper_char((n % 16) as u8));
        assert(out@ =~= old(out)@ + hex_padded(n as nat, width as nat));
    }
}

fn push_escaped_unit(out: &mut Vec<char>, n: u32)
    ensures
        final(out)@ == old(out)@ + escaped_unit(n as nat),
{
    out.push('%');
    out.push('u');
    push_hex_padded(out, n, 4);
    assert(out@ =~= old(out)@ + escaped_unit(n as nat));
}

/// The older `escape`.
pub fn escape(s: &str) -> (r: String)
    ensures
        r@ == escaped(s@),
{
    let cs: Vec<char> = chars_of(s);
    let mut out: Vec<char> = Vec::new();
    let mut i: usize = 0;
    assert(s@.skip(0) =~= s@);
    assert(out@ + escaped(s@.skip(0)) =~= escaped(s@));
    while i < cs.len()
        invariant
            i <= cs@.len(),
            cs@ == s@,
            escaped(s@) == out@ + escaped(s@.skip(i as int)),
        decreases cs@.len() - i,
    {
        let c: char = cs[i];
        let ghost prior = out@;
        if is_escape_safe(c) {
            out.push(c);
        } else if (c as u32) < 256 {
            out.push('%');
            push_hex_padded(&mut out, c as u32, 2);
        } else if (c as u32) < 0x10000 {
            push_escaped_unit(&mut out, c as u32);
        } else {
            let n: u32 = c as u32 - 0x10000;
            proof {
                lemma_code_point(c);
            }
            push_escaped_unit(&mut out, 0xd800 + n / 0x400);
            push_escaped_unit(&mut out, 0xdc00 + n % 0x400);
        }
        assert(out@ =~= prior + escaped_char(c));
        assert(s@.skip(i as int).drop_first() =~= s@.skip(i + 1));
        assert(prior + escaped(s@.skip(i as int)) =~= out@ + escaped(s@.skip(i + 1)));
        i = i + 1;
    }
    assert(out@ + escaped(s@.skip(i as int)) =~= out@);
    string_of(&out)
}

/// The number that hexadecimal digits write.
pub open spec fn hex_digits_value(s: Seq<char>) -> nat
    decreases s.len(),
{
    if s.len() == 0 {
        0
    } else {
        hex_digits_value(s.drop_last()) * 16 + match hex_value(s.last()) {
            Some(d) => d,
            None => 0,
        }
    }
}

/// The number that `s` writes in hexadecimal.
pub open spec fn hex_number(s: Seq<char>) -> Option<nat> {
    if s.len() > 0 && (forall|i: int| 0 <= i < s.len() ==> hex_value(#[trigger] s[i]) is Some) {
        Some(hex_digits_value(s))
    } else {
        None
    }
}

/// The code unit that `%uXXXX` at the front of `s` stands for.
pub open spec fn unit_at(s: Seq<char>) -> Option<nat> {
    if s.len() >= 6 && s[0] == '%' && s[1] == 'u' {
        hex_number(s.subrange(2, 6))
    } else {
        None
    }
}

/// The character that two code units stand for together.
pub open spec fn whole_point(upper: nat, lower: nat) -> nat {
    (0x10000 + (upper - 0xd800) * 0x400 + (lower - 0xdc00)) as nat
}

/// The character that an escape at the front of `s` stands for, and how many characters it takes:
/// the escapes of both code units where it is beyond the basic plane. Half of such a character
/// stands for nothing.
pub open spec fn unescape_at(s: Seq<char>) -> Option<(char, nat)> {
    if s.len() >= 6 && s[0] == '%' && s[1] == 'u' {
        match unit_at(s) {
            Some(v) => if v < 0xd800 || 0xe000 <= v {
                Some((v as char, 6))
            } else if v < 0xdc00 {
                match unit_at(s.skip(6)) {
                    Some(w) => if 0xdc00 <= w < 0xe000 {
                        Some((whole_point(v, w) as char, 12))
                    } else {
                        None
                    },
                    None => None,
                }
            } else {
                None
            },
            None => None,
        }
    } else if s.len() >= 3 && s[0] == '%' {
        match hex_number(s.subrange(1, 3)) {
            Some(v) => Some((v as char, 3)),
            None => None,
        }
    } else {
        None
    }
}

pub open spec fn unescaped(s: Seq<char>) -> Seq<char>
    decreases s.len(),
{
    if s.len() == 0 {
        Seq::empty()
    } else {
        match unescape_at(s) {
            Some((c, used)) => if 0 < used <= s.len() {
                seq![c] + unescaped(s.skip(used as int))
            } else {
                Seq::empty()
            },
            None => seq![s[0]] + unescaped(s.skip(1)),
        }
    }
}

proof fn lemma_hex_value_bound(s: Seq<char>)
    ensures
        s.len() == 0 ==> hex_digits_value(s) == 0,
        s.len() == 1 ==> hex_digits_value(s) < 16,
        s.len() == 2 ==> hex_digits_value(s) < 256,
        s.len() == 3 ==> hex_digits_value(s) < 4096,
        s.len() == 4 ==> hex_digits_value(s) < 65536,
    decreases s.len(),
{
    if 0 < s.len() <= 4 {
        lemma_hex_value_bound(s.drop_last());
    }
}

/// The number that the characters `from..to` write in hexadecimal.
fn hex_number_exec(cs: &Vec<char>, from: usize, to: usize) -> (r: Option<u32>)
    requires
        from <= to <= cs@.len(),
        to - from <= 4,
    ensures
        match r {
            Some(v) => hex_number(cs@.subrange(from as int, to as int)) == Some(v as nat) && v
                < 65536,
            None => hex_number(cs@.subrange(from as int, to as int)) is None,
        },
{
    let ghost body = cs@.subrange(from as int, to as int);
    if from >= to {
        return None;
    }
    let mut v: u32 = 0;
    let mut i: usize = from;
    assert(body.take(0) =~= Seq::<char>::empty());
    while i < to
        invariant
            from <= i <= to <= cs@.len(),
            to - from <= 4,
            body == cs@.subrange(from as int, to as int),
            v == hex_digits_value(body.take(i - from)),
            forall|j: int| 0 <= j < i - from ==> hex_value(#[trigger] body[j]) is Some,
        decreases to - i,
    {
        proof {
            lemma_hex_value_bound(body.take(i - from));
        }
        assert(body[i - from] == cs@[i as int]);
        match hex_digit_value(cs[i]) {
            None => {
                return None;
            },
            Some(d) => {
                assert(body.take(i - from + 1).drop_last() =~= body.take(i - from));
                v = v * 16 + d as u32;
            },
        }
        i = i + 1;
    }
    proof {
        assert(body.take(body.len() as int) =~= body);
        lemma_hex_value_bound(body);
    }
    Some(v)
}

fn unit_at_exec(cs: &Vec<char>, i: usize) -> (r: Option<u32>)
    requires
        i <= cs@.len(),
    ensures
        match r {
            Some(v) => unit_at(cs@.skip(i as int)) == Some(v as nat) && v < 65536 && i + 6
                <= cs@.len(),
            None => unit_at(cs@.skip(i as int)) is None,
        },
{
    let ghost t = cs@.skip(i as int);
    if cs.len() - i < 6 || cs[i] != '%' || cs[i + 1] != 'u' {
        return None;
    }
    assert(t.subrange(2, 6) =~= cs@.subrange(i + 2, i + 6));
    hex_number_exec(cs, i + 2, i + 6)
}

fn unescape_at_exec(cs: &Vec<char>, i: usize) -> (r: Option<(char, usize)>)
    requires
        i < cs@.len(),
    ensures
        match r {
            Some((c, n)) => unescape_at(cs@.skip(i as int)) == Some((c, n as nat)) && i + n
                <= cs@.len() && n > 0,
            None => unescape_at(cs@.skip(i as int)) is None,
        },
{
    let ghost t = cs@.skip(i as int);
    if cs[i] != '%' {
        return None;
    }
    let left: usize = cs.len() - i;
    if left >= 6 && cs[i + 1] == 'u' {
        match unit_at_exec(cs, i) {
            Some(v) => {
                if v < 0xd800 || 0xe000 <= v {
                    match char::from_u32(v) {
                        Some(c) => Some((c, 6)),
                        None => None,
                    }
                } else if v < 0xdc00 {
                    assert(t.skip(6) =~= cs@.skip(i + 6));
                    match unit_at_exec(cs, i + 6) {
                        Some(w) => {
                            if 0xdc00 <= w && w < 0xe000 {
                                let n: u32 = 0x10000 + (v - 0xd800) * 0x400 + (w - 0xdc00);
                                assert(n == whole_point(v as nat, w as nat));
                                match char::from_u32(n) {
                                    Some(c) => Some((c, 12)),
                                    None => None,
                                }
                            } else {
                                None
                            }
                        },
                        None => None,
                    }
                } else {
                    None
                }
            },
            None => None,
        }
    } else if left >= 3 {
        assert(t.subrange(1, 3) =~= cs@.subrange(i + 1, i + 3));
        proof {
            lemma_hex_number_two(t.subrange(1, 3));
        }
        match hex_number_exec(cs, i + 1, i + 3) {
            Some(v) => match char::from_u32(v) {
                Some(c) => Some((c, 3)),
                None => None,
            },
            None => None,
        }
    } else {
        None
    }
}

proof fn lemma_hex_number_two(s: Seq<char>)
    requires
        s.len() == 2,
    ensures
        hex_number(s) matches Some(v) ==> v < 256,
{
    lemma_hex_value_bound(s);
}

/// The older `unescape`.
pub fn unescape(s: &str) -> (r: String)
    ensures
        r@ == unescaped(s@),
{
    let cs: Vec<char> = chars_of(s);
    let mut out: Vec<char> = Vec::new();
    let mut i: usize = 0;
    assert(s@.skip(0) =~= s@);
    assert(out@ + unescaped(s@.skip(0)) =~= unescaped(s@));
    while i < cs.len()
        invariant
            i <= cs@.len(),
            cs@ == s@,
            unescaped(s@) == out@ + unescaped(s@.skip(i as int)),
        decreases cs@.len() - i,
    {
        let ghost t = s@.skip(i as int);
        let ghost prior = out@;
        assert(t[0] == s@[i as int]);
        match unescape_at_exec(&cs, i) {
            Some((c, n)) => {
                out.push(c);
                assert(t.skip(n as int) =~= s@.skip(i + n));
                assert(prior + (seq![c] + unescaped(t.skip(n as int))) =~= out@ + unescaped(
                    t.skip(n as int),
                ));
                i = i + n;
            },
            None => {
                out.push(cs[i]);
                assert(t.skip(1) =~= s@.skip(i + 1));
                assert(prior + (seq![t[0]] + unescaped(t.skip(1))) =~= out@ + unescaped(t.skip(1)));
                i = i + 1;
            },
        }
    }
    assert(s@.skip(i as int) =~= Seq::<char>::empty());
    assert(out@ + Seq::<char>::empty() =~= out@);
    string_of(&out)
}

proof fn lemma_encode_concat(a: Seq<char>, b: Seq<char>)
    ensures
        encode_utf8(a + b) == encode_utf8(a) + encode_utf8(b),
    decreases a.len(),
{
    if a.len() == 0 {
        assert(a + b =~= b);
        assert(encode_utf8(a) + encode_utf8(b) =~= encode_utf8(b));
    } else {
        lemma_encode_concat(a.drop_first(), b);
        assert((a + b).drop_first() =~= a.drop_first() + b);
        assert(encode_utf8(a + b) =~= encode_utf8(a) + encode_utf8(b));
    }
}

proof fn lemma_encode_one(c: char)
    ensures
        encode_utf8(seq![c]) == encode_scalar(c as u32),
{
    assert(seq![c].drop_first() =~= Seq::<char>::empty());
    assert(encode_utf8(seq![c].drop_first()) =~= Seq::<u8>::empty());
    assert(encode_utf8(seq![c]) =~= encode_scalar(c as u32));
}

proof fn lemma_escape_reads_back(b: u8, rest: Seq<u8>)
    ensures
        encode_utf8(escaped_byte(b)).len() == 3,
        escape_at(encode_utf8(escaped_byte(b)) + rest) == Some(b),
        encode_utf8(escaped_byte(b))[0] == 0x25,
{
    let e = escaped_byte(b);
    assert(is_ascii_chars(e));
    is_ascii_chars_encode_utf8(e);
    let u = encode_utf8(e);
    assert(u[0] == e[0] as u8);
    assert(u[1] == e[1] as u8);
    assert(u[2] == e[2] as u8);
    let t = u + rest;
    assert(t[0] == 0x25);
    assert(t[1] as char == e[1]);
    assert(t[2] as char == e[2]);
}

proof fn lemma_continuations_read_back(bs: Seq<u8>, rest: Seq<u8>)
    requires
        forall|i: int| 0 <= i < bs.len() ==> 0x80 <= #[trigger] bs[i] <= 0xbf,
    ensures
        continuations(encode_utf8(escaped_bytes(bs)) + rest, bs.len()) == Some(bs),
        encode_utf8(escaped_bytes(bs)).len() == 3 * bs.len(),
    decreases bs.len(),
{
    if bs.len() == 0 {
        assert(escaped_bytes(bs) =~= Seq::<char>::empty());
        assert(bs =~= Seq::<u8>::empty());
    } else {
        let more = bs.drop_first();
        assert forall|i: int| 0 <= i < more.len() implies 0x80 <= #[trigger] more[i] <= 0xbf by {
            assert(more[i] == bs[i + 1]);
        }
        lemma_continuations_read_back(more, rest);
        lemma_encode_concat(escaped_byte(bs[0]), escaped_bytes(more));
        let tail = encode_utf8(escaped_bytes(more)) + rest;
        lemma_escape_reads_back(bs[0], tail);
        let all = encode_utf8(escaped_bytes(bs)) + rest;
        assert(all =~= encode_utf8(escaped_byte(bs[0])) + tail);
        assert(all.skip(3) =~= tail);
        assert(seq![bs[0]] + more =~= bs);
    }
}

/// The escapes of a character decode to its bytes.
proof fn lemma_escaped_char_reads_back(c: char, rest: Seq<u8>, preserve: bool)
    requires
        preserve ==> !uri_reserved(c),
    ensures
        ({
            let bs = encode_scalar(c as u32);
            let all = encode_utf8(escaped_bytes(bs)) + rest;
            &&& all.len() >= 3 * bs.len()
            &&& bs.len() > 0
            &&& decoded_front(all, preserve) == Some((bs, (3 * bs.len()) as nat))
            &&& all.skip((3 * bs.len()) as int) == rest
        }),
{
    let bs = encode_scalar(c as u32);
    let more = bs.drop_first();
    lemma_encode_one(c);
    encode_utf8_first_scalar(seq![c]);
    encode_utf8_valid_utf8(seq![c]);
    lemma_encode_concat(escaped_byte(bs[0]), escaped_bytes(more));
    let e0 = encode_utf8(escaped_byte(bs[0]));
    let tail = encode_utf8(escaped_bytes(more)) + rest;
    lemma_escape_reads_back(bs[0], tail);
    let all = encode_utf8(escaped_bytes(bs)) + rest;
    assert(all =~= e0 + tail);
    assert(all.skip(3) =~= tail);
    assert(all[0] == 0x25);
    assert(seq![bs[0]] + more =~= bs);
    if bs.len() == 1 {
        assert(more =~= Seq::<u8>::empty());
        assert(escaped_bytes(more) =~= Seq::<char>::empty());
        assert(tail =~= rest);
        let v = c as u32;
        assert(leading_byte_width_1(v) == v) by (bit_vector)
            requires
                v <= 0x7f,
        ;
        assert(bs[0] as char == c);
        assert(bs =~= seq![bs[0]]);
    } else {
        assert forall|i: int| 0 <= i < more.len() implies 0x80 <= #[trigger] more[i] <= 0xbf by {
            assert(more[i] == bs[i + 1]);
        }
        lemma_continuations_read_back(more, rest);
        assert(sequence_len(bs[0]) == Some(bs.len()));
        assert(all.skip((3 * bs.len()) as int) =~= tail.skip((3 * more.len()) as int));
        assert(tail.skip((3 * more.len()) as int) =~= rest);
    }
}

/// Bytes without a percent sign decode to themselves.
proof fn lemma_plain_bytes_stay(bs: Seq<u8>, rest: Seq<u8>, preserve: bool)
    requires
        forall|i: int| 0 <= i < bs.len() ==> #[trigger] bs[i] != 0x25,
    ensures
        decoded_bytes(bs + rest, preserve) == match decoded_bytes(rest, preserve) {
            Some(r) => Some(bs + r),
            None => None,
        },
    decreases bs.len(),
{
    if bs.len() == 0 {
        assert(bs + rest =~= rest);
        if let Some(r) = decoded_bytes(rest, preserve) {
            assert(bs + r =~= r);
        }
    } else {
        let more = bs.drop_first();
        assert forall|i: int| 0 <= i < more.len() implies #[trigger] more[i] != 0x25 by {
            assert(more[i] == bs[i + 1]);
        }
        lemma_plain_bytes_stay(more, rest, preserve);
        let all = bs + rest;
        assert(all[0] == bs[0]);
        assert(all.skip(1) =~= more + rest);
        if let Some(r) = decoded_bytes(rest, preserve) {
            assert(seq![bs[0]] + (more + r) =~= bs + r);
        }
    }
}

/// No byte of a character but the percent sign is a percent sign.
proof fn lemma_bytes_of_char(c: char)
    requires
        c != '%',
    ensures
        forall|i: int|
            0 <= i < encode_scalar(c as u32).len() ==> #[trigger] encode_scalar(c as u32)[i] != 0x25,
{
    let bs = encode_scalar(c as u32);
    let v = c as u32;
    lemma_code_point(c);
    lemma_encode_one(c);
    encode_utf8_first_scalar(seq![c]);
    encode_utf8_valid_utf8(seq![c]);
    if v < 0x80 {
        assert(leading_byte_width_1(v) == v) by (bit_vector)
            requires
                v < 0x80,
        ;
    } else {
        assert(sequence_len(bs[0]) == Some(bs.len()));
        assert forall|i: int| 0 <= i < bs.len() implies #[trigger] bs[i] != 0x25 by {
            if i > 0 {
                assert(0x80 <= bs[i] <= 0xbf);
            }
        }
    }
}

proof fn lemma_round_trip_bytes(s: Seq<char>, extra: Seq<char>, preserve: bool)
    requires
        forall|i: int| 0 <= i < extra.len() ==> #[trigger] extra[i] != '%',
        preserve ==> forall|c: char| uri_reserved(c) ==> #[trigger] uri_safe(c, extra),
    ensures
        decoded_bytes(encode_utf8(uri_encoded(s, extra)), preserve) == Some(encode_utf8(s)),
    decreases s.len(),
{
    if s.len() == 0 {
        assert(uri_encoded(s, extra) =~= Seq::<char>::empty());
        assert(encode_utf8(uri_encoded(s, extra)) =~= Seq::<u8>::empty());
        assert(encode_utf8(s) =~= Seq::<u8>::empty());
    } else {
        let c = s[0];
        let more = s.drop_first();
        lemma_round_trip_bytes(more, extra, preserve);
        let head = uri_encoded_char(c, extra);
        lemma_encode_concat(head, uri_encoded(more, extra));
        let rest = encode_utf8(uri_encoded(more, extra));
        let all = encode_utf8(head) + rest;
        assert(encode_utf8(uri_encoded(s, extra)) == all);
        let bs = encode_scalar(c as u32);
        if uri_safe(c, extra) {
            if extra.contains(c) {
                let i = choose|i: int| 0 <= i < extra.len() && extra[i] == c;
                assert(extra[i] != '%');
            }
            assert(c != '%');
            lemma_encode_one(c);
            lemma_bytes_of_char(c);
            lemma_plain_bytes_stay(bs, rest, preserve);
        } else {
            lemma_escaped_char_reads_back(c, rest, preserve);
        }
        assert(encode_utf8(s) =~= bs + encode_utf8(more));
    }
}

/// Decoding undoes encoding: what `encodeURIComponent` makes of a text, `decodeURIComponent`
/// reads back, and what `encodeURI` makes of it, `decodeURI` reads back. It holds for every set of
/// extra safe characters without the percent sign that includes all reserved characters where the
/// decoder preserves those.
pub proof fn law_uri_round_trip(s: Seq<char>, extra: Seq<char>, preserve: bool)
    requires
        forall|i: int| 0 <= i < extra.len() ==> #[trigger] extra[i] != '%',
        preserve ==> forall|c: char| uri_reserved(c) ==> #[trigger] uri_safe(c, extra),
    ensures
        uri_decoded(uri_encoded(s, extra), preserve) == Some(s),
{
    lemma_round_trip_bytes(s, extra, preserve);
    encode_utf8_valid_utf8(s);
    encode_utf8_decode_utf8(s);
}

/// A digit of an escape.
pub open spec fn upper_hex(c: char) -> bool {
    '0' <= c <= '9' || 'A' <= c <= 'F'
}

/// A text of safe characters and escapes of bytes, and nothing else.
pub open spec fn safe_or_escaped(t: Seq<char>, extra: Seq<char>) -> bool
    decreases t.len(),
{
    ||| t.len() == 0
    ||| t.len() > 0 && uri_safe(t[0], extra) && safe_or_escaped(t.skip(1), extra)
    ||| t.len() >= 3 && t[0] == '%' && upper_hex(t[1]) && upper_hex(t[2]) && safe_or_escaped(
        t.skip(3),
        extra,
    )
}

proof fn lemma_escapes_written(b: Seq<u8>, rest: Seq<char>, extra: Seq<char>)
    requires
        safe_or_escaped(rest, extra),
    ensures
        safe_or_escaped(escaped_bytes(b) + rest, extra),
    decreases b.len(),
{
    if b.len() == 0 {
        assert(escaped_bytes(b) + rest =~= rest);
    } else {
        lemma_escapes_written(b.drop_first(), rest, extra);
        let t = escaped_bytes(b) + rest;
        assert(t[0] == '%');
        assert(t[1] == hex_upper((b[0] / 16) as nat));
        assert(t[2] == hex_upper((b[0] % 16) as nat));
        assert(t.skip(3) =~= escaped_bytes(b.drop_first()) + rest);
    }
}

/// A text is encoded character by character: the encoding of two texts one after the other is
/// their encodings one after the other, and it is written with safe characters and escapes alone.
pub proof fn law_uri_encoding(a: Seq<char>, b: Seq<char>, extra: Seq<char>)
    ensures
        uri_encoded(a + b, extra) == uri_encoded(a, extra) + uri_encoded(b, extra),
        safe_or_escaped(uri_encoded(a, extra), extra),
    decreases a.len(),
{
    if a.len() == 0 {
        assert(a + b =~= b);
        assert(uri_encoded(a, extra) + uri_encoded(b, extra) =~= uri_encoded(b, extra));
    } else {
        let more = a.drop_first();
        law_uri_encoding(more, b, extra);
        assert((a + b).drop_first() =~= more + b);
        assert(uri_encoded(a + b, extra) =~= uri_encoded(a, extra) + uri_encoded(b, extra));
        let t = uri_encoded(a, extra);
        if uri_safe(a[0], extra) {
            assert(t.skip(1) =~= uri_encoded(more, extra));
        } else {
            lemma_escapes_written(encode_scalar(a[0] as u32), uri_encoded(more, extra), extra);
        }
    }
}

proof fn lemma_form_reads_continuations(b: Seq<u8>, n: nat)
    requires
        continuations(b, n) is Some,
    ensures
        3 * n <= b.len(),
        form_bytes(b) == continuations(b, n)->0 + form_bytes(b.skip((3 * n) as int)),
    decreases n,
{
    if n == 0 {
        assert(b.skip(0) =~= b);
        assert(Seq::<u8>::empty() + form_bytes(b) =~= form_bytes(b));
    } else {
        lemma_form_reads_continuations(b.skip(3), (n - 1) as nat);
        let rest = b.skip((3 * n) as int);
        assert(b.skip(3).skip((3 * (n - 1)) as int) =~= rest);
        let c = escape_at(b)->0;
        let after = continuations(b.skip(3), (n - 1) as nat)->0;
        assert(seq![c] + (after + form_bytes(rest)) =~= (seq![c] + after) + form_bytes(rest));
    }
}

proof fn lemma_form_reads_strict(b: Seq<u8>)
    requires
        decoded_bytes(b, false) is Some,
    ensures
        form_bytes(b) == decoded_bytes(b, false)->0,
    decreases b.len(),
{
    if b.len() > 0 {
        let (piece, used) = decoded_front(b, false)->0;
        let rest = b.skip(used as int);
        lemma_form_reads_strict(rest);
        if b[0] == 0x25 && escape_at(b)->0 >= 0x80 {
            let b0 = escape_at(b)->0;
            let n = sequence_len(b0)->0;
            let more = continuations(b.skip(3), (n - 1) as nat)->0;
            lemma_form_reads_continuations(b.skip(3), (n - 1) as nat);
            assert(b.skip(3).skip((3 * (n - 1)) as int) =~= rest);
            assert(seq![b0] + (more + form_bytes(rest)) =~= piece + form_bytes(rest));
        }
    }
}

/// The lenient decoder of forms agrees with `decodeURIComponent` on every text that the latter
/// takes: the bytes that it reads are UTF-8, and they are the same text.
pub proof fn law_lenient_decoding(s: Seq<char>)
    requires
        uri_decoded(s, false) is Some,
    ensures
        valid_utf8(form_bytes(encode_utf8(s))),
        decode_utf8(form_bytes(encode_utf8(s))) == uri_decoded(s, false)->0,
{
    lemma_form_reads_strict(encode_utf8(s));
}

proof fn lemma_hex_padded_reads_back(n: nat, width: nat)
    requires
        (width == 2 && n < 256) || (width == 4 && n < 65536) || (width == 1 && n < 16) || (width == 3
            && n < 4096),
    ensures
        hex_padded(n, width).len() == width,
        hex_digits_value(hex_padded(n, width)) == n,
        forall|i: int| 0 <= i < width ==> hex_value(#[trigger] hex_padded(n, width)[i]) is Some,
    decreases width,
{
    let p = hex_padded(n, width);
    if width == 1 {
        assert(p =~= seq![hex_upper(n)]);
        assert(p.drop_last() =~= Seq::<char>::empty());
        assert(hex_digits_value(p.drop_last()) == 0);
    } else {
        let q = hex_padded(n / 16, (width - 1) as nat);
        lemma_hex_padded_reads_back(n / 16, (width - 1) as nat);
        assert(p =~= q.push(hex_upper(n % 16)));
        assert(p.drop_last() =~= q);
        assert(p[0] == q[0]);
        assert forall|i: int| 0 <= i < width implies hex_value(#[trigger] p[i]) is Some by {
            if i < width - 1 {
                assert(p[i] == q[i]);
            }
        }
    }
}

/// The escape of a code unit reads back, whatever follows it.
proof fn lemma_unit_reads_back(n: nat, rest: Seq<char>)
    requires
        n < 65536,
    ensures
        unit_at(escaped_unit(n) + rest) == Some(n),
        escaped_unit(n).len() == 6,
        (escaped_unit(n) + rest).skip(6) == rest,
{
    lemma_hex_padded_reads_back(n, 4);
    let p = hex_padded(n, 4);
    let all = escaped_unit(n) + rest;
    assert(all.subrange(2, 6) =~= p);
    assert(all.skip(6) =~= rest);
}

/// `unescape` undoes `escape`.
pub proof fn law_unescape_undoes_escape(s: Seq<char>)
    ensures
        unescaped(escaped(s)) == s,
    decreases s.len(),
{
    if s.len() > 0 {
        let c = s[0];
        let more = s.drop_first();
        law_unescape_undoes_escape(more);
        let head = escaped_char(c);
        let all = head + escaped(more);
        let n = (c as u32) as nat;
        lemma_code_point(c);
        assert(s[0] as u32 == n);
        if escape_safe(c) {
            assert(all[0] == c && c != '%');
            assert(all.skip(1) =~= escaped(more));
        } else if n < 256 {
            lemma_hex_padded_reads_back(n, 2);
            let p = hex_padded(n, 2);
            assert(all[0] == '%' && all[1] == p[0] && all[2] == p[1]);
            assert(hex_value(p[0]) is Some);
            assert(all.subrange(1, 3) =~= p);
            assert(hex_number(p) == Some(n));
            assert(all.skip(3) =~= escaped(more));
            assert(n as char == c);
        } else if n < 0x10000 {
            lemma_unit_reads_back(n, escaped(more));
            assert(all[0] == '%' && all[1] == 'u');
            assert(n as char == c);
        } else {
            let a = upper_half(n);
            let b = lower_half(n);
            lemma_unit_reads_back(b, escaped(more));
            let tail = escaped_unit(b) + escaped(more);
            lemma_unit_reads_back(a, tail);
            assert(all =~= escaped_unit(a) + tail);
            assert(all[0] == '%' && all[1] == 'u');
            assert(all.skip(12) =~= tail.skip(6));
            assert(whole_point(a, b) == n);
            assert(n as char == c);
        }
        assert(seq![c] + more =~= s);
    }
}

} // verus!
