//! Strings as sequences of code units: searching, cutting, trimming, padding and splitting.
use crate::array_search::Offset;
use crate::code_units::{char_utf16, text_of_units, unit_char, utf16, utf16_text};
use crate::json_text::{joined, repeated};
use crate::text::{
    chars_of, concat_text, find_text, is_js_ws, js_space, law_text_index, lemma_code_point,
    string_of_range, text_index,
};
use vstd::prelude::*;

verus! {

/// The place that an offset leads to: from the start, or from the end where it is negative.
pub open spec fn relative(at: Offset, len: nat) -> nat {
    match at {
        Offset::NegInfinity => 0,
        Offset::PosInfinity => len,
        Offset::Forward(n) => if (n as nat) < len {
            n as nat
        } else {
            len
        },
        Offset::Backward(n) => if (n as nat) < len {
            (len - n) as nat
        } else {
            0
        },
    }
}

/// The place that an offset leads to, where nothing is before the start.
pub open spec fn clamped(at: Offset, len: nat) -> nat {
    match at {
        Offset::NegInfinity => 0,
        Offset::Backward(_) => 0,
        Offset::PosInfinity => len,
        Offset::Forward(n) => if (n as nat) < len {
            n as nat
        } else {
            len
        },
    }
}

pub fn relative_place(at: Offset, len: usize) -> (r: usize)
    ensures
        r == relative(at, len as nat),
        r <= len,
{
    match at {
        Offset::NegInfinity => 0,
        Offset::PosInfinity => len,
        Offset::Forward(n) => if n < len as u64 {
            n as usize
        } else {
            len
        },
        Offset::Backward(n) => if n < len as u64 {
            len - n as usize
        } else {
            0
        },
    }
}

pub fn clamped_place(at: Offset, len: usize) -> (r: usize)
    ensures
        r == clamped(at, len as nat),
        r <= len,
{
    match at {
        Offset::NegInfinity => 0,
        Offset::Backward(_) => 0,
        Offset::PosInfinity => len,
        Offset::Forward(n) => if n < len as u64 {
            n as usize
        } else {
            len
        },
    }
}

/// The index that an offset names, where there is one.
pub open spec fn index_at(at: Offset, len: nat) -> Option<nat> {
    match at {
        Offset::Forward(n) => if (n as nat) < len {
            Some(n as nat)
        } else {
            None
        },
        _ => None,
    }
}

pub fn index_at_place(at: Offset, len: usize) -> (r: Option<usize>)
    ensures
        match r {
            Some(i) => index_at(at, len as nat) == Some(i as nat) && i < len,
            None => index_at(at, len as nat) is None,
        },
{
    match at {
        Offset::Forward(n) => if n < len as u64 {
            Some(n as usize)
        } else {
            None
        },
        _ => None,
    }
}

/// The index that an offset names, counted from the end where it is negative.
pub open spec fn index_from(at: Offset, len: nat) -> Option<nat> {
    match at {
        Offset::Forward(n) => if (n as nat) < len {
            Some(n as nat)
        } else {
            None
        },
        Offset::Backward(n) => if n as nat <= len {
            Some((len - n) as nat)
        } else {
            None
        },
        _ => None,
    }
}

pub fn index_from_place(at: Offset, len: usize) -> (r: Option<usize>)
    requires
        at matches Offset::Backward(n) ==> n > 0,
    ensures
        match r {
            Some(i) => index_from(at, len as nat) == Some(i as nat) && i < len,
            None => index_from(at, len as nat) is None,
        },
{
    match at {
        Offset::Forward(n) => if n < len as u64 {
            Some(n as usize)
        } else {
            None
        },
        Offset::Backward(n) => if n <= len as u64 {
            Some(len - n as usize)
        } else {
            None
        },
        _ => None,
    }
}

/// The code units of a text.
pub fn units_of(s: &str) -> (r: Vec<u16>)
    ensures
        r@ == utf16(s@),
{
    let cs: Vec<char> = chars_of(s);
    let mut out: Vec<u16> = Vec::new();
    let mut i: usize = 0;
    assert(s@.skip(0) =~= s@);
    assert(out@ + utf16(s@.skip(0)) =~= utf16(s@));
    while i < cs.len()
        invariant
            i <= cs@.len(),
            cs@ == s@,
            out@ + utf16(s@.skip(i as int)) == utf16(s@),
        decreases cs@.len() - i,
    {
        let c: char = cs[i];
        let ghost rest = s@.skip(i as int);
        let ghost before = out@;
        assert(rest[0] == c);
        assert(rest.skip(1) =~= s@.skip(i + 1));
        proof {
            lemma_code_point(c);
        }
        let p: u32 = c as u32;
        if p < 0x10000 {
            out.push(p as u16);
        } else {
            out.push((0xd800 + (p - 0x10000) / 0x400) as u16);
            out.push((0xdc00 + (p - 0x10000) % 0x400) as u16);
        }
        assert(out@ =~= before + char_utf16(c));
        i = i + 1;
        assert(out@ + utf16(s@.skip(i as int)) =~= before + utf16(rest));
    }
    assert(out@ + utf16(s@.skip(i as int)) =~= out@);
    out
}

/// Some units stand at a place.
pub open spec fn units_stand(hay: Seq<u16>, needle: Seq<u16>, at: nat) -> bool {
    at + needle.len() <= hay.len() && hay.subrange(at as int, (at + needle.len()) as int) == needle
}

/// The first place from `from` on where some units stand.
pub open spec fn unit_index(hay: Seq<u16>, needle: Seq<u16>, from: nat) -> Option<nat>
    decreases hay.len() - from,
{
    if units_stand(hay, needle, from) {
        Some(from)
    } else if from >= hay.len() {
        None
    } else {
        unit_index(hay, needle, from + 1)
    }
}

/// The last place up to `upto` where some units stand.
pub open spec fn unit_last_index(hay: Seq<u16>, needle: Seq<u16>, upto: nat) -> Option<nat>
    decreases upto,
{
    if units_stand(hay, needle, upto) {
        Some(upto)
    } else if upto == 0 {
        None
    } else {
        unit_last_index(hay, needle, (upto - 1) as nat)
    }
}

pub fn are_units_at(hay: &Vec<u16>, needle: &Vec<u16>, at: usize) -> (r: bool)
    ensures
        r == units_stand(hay@, needle@, at as nat),
{
    if at > hay.len() || needle.len() > hay.len() - at {
        return false;
    }
    let n: usize = hay.len();
    let mut i: usize = 0;
    while i < needle.len()
        invariant
            n == hay@.len(),
            i <= needle@.len(),
            at + needle@.len() <= n,
            forall|j: int| 0 <= j < i ==> hay@[at + j] == #[trigger] needle@[j],
        decreases needle@.len() - i,
    {
        if hay[at + i] != needle[i] {
            assert(hay@.subrange(at as int, (at + needle@.len()) as int)[i as int]
                != needle@[i as int]);
            return false;
        }
        i = i + 1;
    }
    assert(hay@.subrange(at as int, (at + needle@.len()) as int) =~= needle@);
    true
}

/// The first place from `from` on where some units stand.
pub fn find_units(hay: &Vec<u16>, needle: &Vec<u16>, from: usize) -> (r: Option<usize>)
    ensures
        match r {
            Some(i) => unit_index(hay@, needle@, from as nat) == Some(i as nat),
            None => unit_index(hay@, needle@, from as nat) is None,
        },
{
    let mut i: usize = from;
    loop
        invariant
            from <= i,
            unit_index(hay@, needle@, from as nat) == unit_index(hay@, needle@, i as nat),
        decreases hay@.len() + 1 - i,
    {
        if are_units_at(hay, needle, i) {
            return Some(i);
        }
        if i >= hay.len() {
            return None;
        }
        i = i + 1;
    }
}

/// The last place where some units stand.
pub fn find_last_units(hay: &Vec<u16>, needle: &Vec<u16>) -> (r: Option<usize>)
    ensures
        match r {
            Some(i) => unit_last_index(hay@, needle@, hay@.len()) == Some(i as nat),
            None => unit_last_index(hay@, needle@, hay@.len()) is None,
        },
{
    let mut i: usize = hay.len();
    loop
        invariant
            unit_last_index(hay@, needle@, hay@.len()) == unit_last_index(
                hay@,
                needle@,
                i as nat,
            ),
        decreases i,
    {
        if are_units_at(hay, needle, i) {
            return Some(i);
        }
        if i == 0 {
            return None;
        }
        i = i - 1;
    }
}

/// `indexOf` finds the first occurrence and `lastIndexOf` the last: no units stand before the one
/// or after the other.
pub proof fn law_unit_index(hay: Seq<u16>, needle: Seq<u16>, from: nat)
    ensures
        match unit_index(hay, needle, from) {
            Some(i) => from <= i && units_stand(hay, needle, i) && forall|j: nat|
                from <= j < i ==> !#[trigger] units_stand(hay, needle, j),
            None => forall|j: nat| from <= j ==> !#[trigger] units_stand(hay, needle, j),
        },
        match unit_last_index(hay, needle, from) {
            Some(i) => i <= from && units_stand(hay, needle, i) && forall|j: nat|
                i < j <= from ==> !#[trigger] units_stand(hay, needle, j),
            None => forall|j: nat| j <= from ==> !#[trigger] units_stand(hay, needle, j),
        },
{
    lemma_unit_index(hay, needle, from);
    lemma_unit_last_index(hay, needle, from);
}

proof fn lemma_unit_index(hay: Seq<u16>, needle: Seq<u16>, from: nat)
    ensures
        match unit_index(hay, needle, from) {
            Some(i) => from <= i && units_stand(hay, needle, i) && forall|j: nat|
                from <= j < i ==> !#[trigger] units_stand(hay, needle, j),
            None => forall|j: nat| from <= j ==> !#[trigger] units_stand(hay, needle, j),
        },
    decreases hay.len() - from,
{
    if !units_stand(hay, needle, from) && from < hay.len() {
        lemma_unit_index(hay, needle, from + 1);
    }
}

proof fn lemma_unit_last_index(hay: Seq<u16>, needle: Seq<u16>, upto: nat)
    ensures
        match unit_last_index(hay, needle, upto) {
            Some(i) => i <= upto && units_stand(hay, needle, i) && forall|j: nat|
                i < j <= upto ==> !#[trigger] units_stand(hay, needle, j),
            None => forall|j: nat| j <= upto ==> !#[trigger] units_stand(hay, needle, j),
        },
    decreases upto,
{
    if !units_stand(hay, needle, upto) && upto > 0 {
        lemma_unit_last_index(hay, needle, (upto - 1) as nat);
    }
}

/// Some of the units, as text.
pub fn units_between(u: &Vec<u16>, from: usize, to: usize) -> (r: String)
    requires
        from <= to <= u@.len(),
    ensures
        r@ == utf16_text(u@.subrange(from as int, to as int)),
{
    let mut part: Vec<u16> = Vec::new();
    let mut i: usize = from;
    while i < to
        invariant
            from <= i <= to <= u@.len(),
            part@ == u@.subrange(from as int, i as int),
        decreases to - i,
    {
        part.push(u[i]);
        i = i + 1;
        assert(part@ =~= u@.subrange(from as int, i as int));
    }
    crate::code_units::text_of_units(&part)
}

/// The number of blank characters that `s` begins with.
pub open spec fn leading_blanks(s: Seq<char>) -> nat
    decreases s.len(),
{
    if s.len() > 0 && js_space(s[0]) {
        leading_blanks(s.skip(1)) + 1
    } else {
        0
    }
}

/// The text without the blanks at its start.
pub open spec fn without_leading(s: Seq<char>) -> Seq<char> {
    s.skip(leading_blanks(s) as int)
}

/// The text without the blanks at its end.
pub open spec fn without_trailing(s: Seq<char>) -> Seq<char>
    decreases s.len(),
{
    if s.len() > 0 && js_space(s.last()) {
        without_trailing(s.drop_last())
    } else {
        s
    }
}

proof fn lemma_leading_blanks(s: Seq<char>, n: nat)
    requires
        n <= s.len(),
        forall|j: int| 0 <= j < n ==> js_space(#[trigger] s[j]),
        n < s.len() ==> !js_space(s[n as int]),
    ensures
        leading_blanks(s) == n,
    decreases s.len(),
{
    if n > 0 {
        assert(js_space(s[0]));
        assert forall|j: int| 0 <= j < n - 1 implies js_space(#[trigger] s.skip(1)[j]) by {
            assert(js_space(s[j + 1]));
        }
        lemma_leading_blanks(s.skip(1), (n - 1) as nat);
    }
}

/// A text without the blanks at its start.
pub fn trim_leading(s: &str) -> (r: String)
    ensures
        r@ == without_leading(s@),
{
    let cs: Vec<char> = chars_of(s);
    let mut n: usize = 0;
    while n < cs.len() && is_js_ws(cs[n])
        invariant
            n <= cs@.len(),
            forall|j: int| 0 <= j < n ==> js_space(#[trigger] cs@[j]),
        decreases cs@.len() - n,
    {
        n = n + 1;
    }
    proof {
        lemma_leading_blanks(cs@, n as nat);
    }
    let r: String = string_of_range(&cs, n, cs.len());
    assert(r@ =~= without_leading(s@));
    r
}

/// A text without the blanks at its end.
pub fn trim_trailing(s: &str) -> (r: String)
    ensures
        r@ == without_trailing(s@),
{
    let cs: Vec<char> = chars_of(s);
    let mut n: usize = cs.len();
    assert(cs@.take(n as int) =~= cs@);
    while n > 0 && is_js_ws(cs[n - 1])
        invariant
            n <= cs@.len(),
            without_trailing(cs@) == without_trailing(cs@.take(n as int)),
        decreases n,
    {
        assert(cs@.take(n as int).drop_last() =~= cs@.take(n - 1));
        assert(cs@.take(n as int).last() == cs@[n - 1]);
        n = n - 1;
    }
    let r: String = string_of_range(&cs, 0, n);
    assert(r@ =~= cs@.take(n as int));
    if n > 0 {
        assert(cs@.take(n as int).last() == cs@[n - 1]);
    }
    r
}

proof fn lemma_without_trailing(s: Seq<char>)
    ensures
        ({
            let t = without_trailing(s);
            &&& t.len() <= s.len()
            &&& t == s.take(t.len() as int)
            &&& t.len() > 0 ==> !js_space(t.last())
            &&& forall|i: int| t.len() <= i < s.len() ==> js_space(#[trigger] s[i])
        }),
    decreases s.len(),
{
    if s.len() > 0 && js_space(s.last()) {
        lemma_without_trailing(s.drop_last());
        let t = without_trailing(s);
        assert(s.drop_last().take(t.len() as int) =~= s.take(t.len() as int));
        assert forall|i: int| t.len() <= i < s.len() implies js_space(#[trigger] s[i]) by {
            if i < s.len() - 1 {
                assert(s.drop_last()[i] == s[i]);
            }
        }
    } else {
        assert(s.take(s.len() as int) =~= s);
    }
}

pub proof fn lemma_leading_are_blank(s: Seq<char>)
    ensures
        leading_blanks(s) <= s.len(),
        forall|i: int| 0 <= i < leading_blanks(s) ==> js_space(#[trigger] s[i]),
        leading_blanks(s) < s.len() ==> !js_space(s[leading_blanks(s) as int]),
    decreases s.len(),
{
    if s.len() > 0 && js_space(s[0]) {
        lemma_leading_are_blank(s.skip(1));
        assert forall|i: int| 0 <= i < leading_blanks(s) implies js_space(#[trigger] s[i]) by {
            if i > 0 {
                assert(s.skip(1)[i - 1] == s[i]);
            }
        }
    }
}

/// Trimming takes away blanks and nothing else, at one end each, and a second time changes nothing.
pub proof fn law_trim(s: Seq<char>)
    ensures
        forall|i: int| 0 <= i < leading_blanks(s) ==> js_space(#[trigger] s[i]),
        without_leading(s).len() > 0 ==> !js_space(without_leading(s)[0]),
        without_trailing(s) == s.take(without_trailing(s).len() as int),
        forall|i: int| without_trailing(s).len() <= i < s.len() ==> js_space(#[trigger] s[i]),
        without_trailing(s).len() > 0 ==> !js_space(without_trailing(s).last()),
        without_leading(without_leading(s)) == without_leading(s),
        without_trailing(without_trailing(s)) == without_trailing(s),
{
    lemma_leading_are_blank(s);
    lemma_without_trailing(s);
    let t = without_leading(s);
    if t.len() > 0 {
        assert(t[0] == s[leading_blanks(s) as int]);
    }
    assert(t.skip(0) =~= t);
}

/// The pieces of a text between the occurrences of a separator, from `from` on.
pub open spec fn split_from(s: Seq<char>, sep: Seq<char>, from: nat) -> Seq<Seq<char>>
    decreases s.len() - from,
{
    if sep.len() == 0 || from > s.len() {
        seq![s.skip(from as int)]
    } else {
        match text_index(s, sep, from) {
            Some(i) => if from <= i && i + sep.len() <= s.len() {
                seq![s.subrange(from as int, i as int)] + split_from(s, sep, i + sep.len())
            } else {
                seq![s.skip(from as int)]
            },
            None => seq![s.skip(from as int)],
        }
    }
}

/// The characters of a text, each as a text.
pub open spec fn single_texts(s: Seq<char>) -> Seq<Seq<char>> {
    Seq::new(s.len(), |i: int| seq![s[i]])
}

/// `split` by a text: the characters where the separator is empty.
pub open spec fn split_text(s: Seq<char>, sep: Seq<char>) -> Seq<Seq<char>> {
    if sep.len() == 0 {
        single_texts(s)
    } else {
        split_from(s, sep, 0)
    }
}

/// At most `n` of some texts.
pub open spec fn at_most(s: Seq<Seq<char>>, n: nat) -> Seq<Seq<char>> {
    if s.len() <= n {
        s
    } else {
        s.take(n as int)
    }
}

/// Splits a text; at most `limit` pieces.
pub fn split_by_text(s: &str, sep: &str, limit: u32) -> (r: Vec<String>)
    ensures
        crate::json::text_views(r@) == at_most(split_text(s@, sep@), limit as nat),
{
    let cs: Vec<char> = chars_of(s);
    let ss: Vec<char> = chars_of(sep);
    let mut out: Vec<String> = Vec::new();
    if ss.len() == 0 {
        let mut i: usize = 0;
        while i < cs.len() && (i as u64) < limit as u64
            invariant
                i <= cs@.len(),
                i <= limit,
                cs@ == s@,
                crate::json::text_views(out@) == single_texts(s@).take(i as int),
            decreases cs@.len() - i,
        {
            let ghost before = crate::json::text_views(out@);
            let one: String = string_of_range(&cs, i, i + 1);
            assert(one@ =~= seq![s@[i as int]]);
            out.push(one);
            assert(crate::json::text_views(out@) =~= before.push(seq![s@[i as int]]));
            i = i + 1;
            assert(crate::json::text_views(out@) =~= single_texts(s@).take(i as int));
        }
        assert(crate::json::text_views(out@) =~= at_most(split_text(s@, sep@), limit as nat));
        return out;
    }
    let n: usize = cs.len();
    let mut from: usize = 0;
    let ghost all = split_from(s@, sep@, 0);
    assert(crate::json::text_views(out@) + split_from(s@, sep@, 0) =~= all);
    loop
        invariant
            cs@ == s@,
            ss@ == sep@,
            n == cs@.len(),
            ss@.len() > 0,
            from <= n,
            all == split_from(s@, sep@, 0),
            crate::json::text_views(out@) + split_from(s@, sep@, from as nat) == all,
        decreases n - from,
    {
        let ghost before = crate::json::text_views(out@);
        proof {
            law_text_index(s@, sep@, from as nat);
        }
        match find_text(&cs, &ss, from) {
            Some(i) => {
                let piece: String = string_of_range(&cs, from, i);
                out.push(piece);
                assert(crate::json::text_views(out@) =~= before.push(
                    s@.subrange(from as int, i as int),
                ));
                from = i + ss.len();
                assert(crate::json::text_views(out@) + split_from(s@, sep@, from as nat) =~= all);
            },
            None => {
                let piece: String = string_of_range(&cs, from, n);
                assert(piece@ =~= s@.skip(from as int));
                out.push(piece);
                assert(crate::json::text_views(out@) =~= all);
                return first_texts(out, limit);
            },
        }
    }
}

fn first_texts(v: Vec<String>, limit: u32) -> (r: Vec<String>)
    ensures
        crate::json::text_views(r@) == at_most(crate::json::text_views(v@), limit as nat),
{
    let mut out: Vec<String> = Vec::new();
    let mut i: usize = 0;
    while i < v.len() && (i as u64) < limit as u64
        invariant
            i <= v@.len(),
            i <= limit,
            crate::json::text_views(out@) == crate::json::text_views(v@).take(i as int),
        decreases v@.len() - i,
    {
        let ghost before = crate::json::text_views(out@);
        out.push(v[i].clone());
        assert(crate::json::text_views(out@) =~= before.push(v@[i as int]@));
        i = i + 1;
        assert(crate::json::text_views(out@) =~= crate::json::text_views(v@).take(i as int));
    }
    assert(crate::json::text_views(out@) =~= at_most(
        crate::json::text_views(v@),
        limit as nat,
    ));
    out
}

proof fn lemma_joined_front(first: Seq<char>, rest: Seq<Seq<char>>, sep: Seq<char>)
    requires
        rest.len() > 0,
    ensures
        joined(seq![first] + rest, sep) == first + sep + joined(rest, sep),
    decreases rest.len(),
{
    let all = seq![first] + rest;
    if rest.len() == 1 {
        assert(all.drop_last() =~= seq![first]);
        assert(joined(seq![first], sep) == first);
        assert(all.last() == rest[0]);
        assert(joined(rest, sep) == rest[0]);
    } else {
        assert(all.drop_last() =~= seq![first] + rest.drop_last());
        lemma_joined_front(first, rest.drop_last(), sep);
        assert(joined(all, sep) =~= first + sep + joined(rest, sep));
    }
}

proof fn lemma_split_from_joins(s: Seq<char>, sep: Seq<char>, from: nat)
    requires
        sep.len() > 0,
        from <= s.len(),
    ensures
        split_from(s, sep, from).len() > 0,
        joined(split_from(s, sep, from), sep) == s.skip(from as int),
    decreases s.len() - from,
{
    law_text_index(s, sep, from);
    match text_index(s, sep, from) {
        Some(i) => {
            let next = i + sep.len();
            let first = s.subrange(from as int, i as int);
            lemma_split_from_joins(s, sep, next);
            lemma_joined_front(first, split_from(s, sep, next), sep);
            assert(s.subrange(i as int, next as int) == sep);
            assert(first + sep + s.skip(next as int) =~= s.skip(from as int));
        },
        None => {},
    }
}

/// Joining the pieces of a text with the separator gives the text back.
pub proof fn law_split_join(s: Seq<char>, sep: Seq<char>)
    ensures
        joined(split_text(s, sep), sep) == s,
{
    if sep.len() == 0 {
        lemma_joined_singles(s, sep);
    } else {
        lemma_split_from_joins(s, sep, 0);
        assert(s.skip(0) =~= s);
    }
}

proof fn lemma_joined_singles(s: Seq<char>, sep: Seq<char>)
    requires
        sep.len() == 0,
    ensures
        joined(single_texts(s), sep) == s,
    decreases s.len(),
{
    if s.len() == 0 {
        assert(joined(single_texts(s), sep) =~= s);
    } else if s.len() == 1 {
        assert(single_texts(s)[0] =~= s);
    } else {
        lemma_joined_singles(s.drop_last(), sep);
        assert(single_texts(s).drop_last() =~= single_texts(s.drop_last()));
        assert(s.drop_last() + sep + seq![s.last()] =~= s);
    }
}

/// `n` code units of `pad` over and over.
pub open spec fn filling(pad: Seq<u16>, n: nat) -> Seq<u16> {
    Seq::new(n, |i: int| pad[i % pad.len() as int])
}

/// A text padded to a length in code units, at its start or at its end.
pub open spec fn padded(s: Seq<char>, target: nat, pad: Seq<char>, start: bool) -> Seq<char> {
    let n = utf16(s).len();
    if n >= target || pad.len() == 0 {
        s
    } else {
        let fill = utf16_text(filling(utf16(pad), (target - n) as nat));
        if start {
            fill + s
        } else {
            s + fill
        }
    }
}

/// Pads a text to a length.
pub fn pad_text(s: &str, target: u64, pad: &str, start: bool) -> (r: String)
    ensures
        r@ == padded(s@, target as nat, pad@, start),
{
    let n: usize = units_of(s).len();
    let ps: Vec<u16> = units_of(pad);
    if n as u64 >= target || ps.len() == 0 {
        proof {
            if pad@.len() > 0 {
                lemma_units_there(pad@);
            }
        }
        return s.to_owned();
    }
    let need: u64 = target - n as u64;
    let mut fill: Vec<u16> = Vec::new();
    let mut i: u64 = 0;
    let mut k: usize = 0;
    assert(fill@ =~= filling(ps@, 0));
    while i < need
        invariant
            ps@.len() > 0,
            i <= need,
            k < ps@.len(),
            k as int == i as int % ps@.len() as int,
            fill@ == filling(ps@, i as nat),
        decreases need - i,
    {
        fill.push(ps[k]);
        proof {
            lemma_next_remainder(i as int, ps@.len() as int);
        }
        i = i + 1;
        let m: usize = ps.len();
        if k + 1 < m {
            k = k + 1;
        } else {
            k = 0;
        }
        assert(fill@ =~= filling(ps@, i as nat));
    }
    let more: String = text_of_units(&fill);
    if start {
        concat_text(more.as_str(), s)
    } else {
        concat_text(s, more.as_str())
    }
}

/// A text that is not empty has code units.
proof fn lemma_units_there(s: Seq<char>)
    requires
        s.len() > 0,
    ensures
        utf16(s).len() > 0,
{
    assert(char_utf16(s[0]).len() > 0);
}

/// The code units of one text after another.
proof fn lemma_units_joined(a: Seq<char>, b: Seq<char>)
    ensures
        utf16(a + b) == utf16(a) + utf16(b),
    decreases a.len(),
{
    if a.len() == 0 {
        assert(a + b =~= b);
        assert(utf16(a) + utf16(b) =~= utf16(b));
    } else {
        lemma_units_joined(a.skip(1), b);
        assert((a + b).skip(1) =~= a.skip(1) + b);
        assert(utf16(a + b) =~= utf16(a) + utf16(b));
    }
}

/// The text of some code units has as many of them.
proof fn lemma_units_counted(u: Seq<u16>)
    ensures
        utf16(utf16_text(u)).len() == u.len(),
    decreases u.len(),
{
    if u.len() > 0 {
        let (c, n) = unit_char(u);
        let rest = u.skip(n as int);
        lemma_units_counted(rest);
        let t = utf16_text(u);
        assert(t[0] == c);
        assert(t.skip(1) =~= utf16_text(rest));
        assert(char_utf16(c).len() == n);
    }
}

proof fn lemma_next_remainder(i: int, m: int)
    requires
        i >= 0,
        m > 0,
    ensures
        (i + 1) % m == if i % m + 1 < m {
            i % m + 1
        } else {
            0
        },
{
    vstd::arithmetic::div_mod::lemma_fundamental_div_mod(i, m);
    let q = i / m;
    let r = i % m;
    assert(m * q == q * m && (q + 1) * m == q * m + m) by (nonlinear_arith);
    if r + 1 < m {
        vstd::arithmetic::div_mod::lemma_fundamental_div_mod_converse(i + 1, m, q, r + 1);
    } else {
        vstd::arithmetic::div_mod::lemma_fundamental_div_mod_converse(i + 1, m, q + 1, 0);
    }
}

/// A padded text has the length in code units that was asked for, or its own where that is more,
/// and the text stands unchanged at the other end.
pub proof fn law_padding(s: Seq<char>, target: nat, pad: Seq<char>, start: bool)
    requires
        pad.len() > 0,
    ensures
        utf16(padded(s, target, pad, start)).len() == if utf16(s).len() >= target {
            utf16(s).len()
        } else {
            target
        },
        start ==> padded(s, target, pad, start).skip(padded(s, target, pad, start).len() - s.len())
            == s,
        !start ==> padded(s, target, pad, start).take(s.len() as int) == s,
{
    let p = padded(s, target, pad, start);
    if utf16(s).len() < target {
        let units = filling(utf16(pad), (target - utf16(s).len()) as nat);
        let fill = utf16_text(units);
        lemma_units_counted(units);
        lemma_units_joined(fill, s);
        lemma_units_joined(s, fill);
    }
    if start {
        assert(p.skip(p.len() - s.len()) =~= s);
    } else {
        assert(p.take(s.len() as int) =~= s);
    }
}

/// A text over and over.
pub fn repeat_text(s: &str, n: u64) -> (r: String)
    ensures
        r@ == repeated(s@, n as nat),
{
    let mut out: String = String::new();
    let mut i: u64 = 0;
    assert(out@ =~= repeated(s@, 0));
    while i < n
        invariant
            i <= n,
            out@ == repeated(s@, i as nat),
        decreases n - i,
    {
        crate::text::append_text(&mut out, s);
        i = i + 1;
    }
    out
}

} // verus!
