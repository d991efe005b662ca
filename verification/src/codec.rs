//! The reversible encodings that hosting sites wrap around their links: ROT13,
//! code-point shifts, reversal, separator markers and Base64.

use crate::text::{
    char_from_code, char_of_code, chars_of, is_char_code, is_lower, is_upper, opt_text, owned,
    remove_all, str_remove_all, str_reverse, str_without_char, string_from_utf8, texts,
    without_char,
};
use vstd::prelude::*;
use vstd::utf8::{
    char_is_scalar, decode_utf8, encode_utf8, encode_utf8_decode_utf8, encode_utf8_valid_utf8,
    is_ascii_chars, is_ascii_chars_encode_utf8, valid_utf8,
};

verus! {

// ---------------------------------------------------------------------------
// Base64
// ---------------------------------------------------------------------------

/// What `base64`'s `STANDARD` engine decodes a text to; `None` where it refuses.
pub uninterp spec fn b64_decode(text: Seq<char>) -> Option<Seq<u8>>;

/// How `base64`'s `STANDARD` engine writes bytes.
pub uninterp spec fn b64_encode(bytes: Seq<u8>) -> Seq<char>;

/// A character of the standard Base64 alphabet, or its padding.
pub open spec fn is_b64_char(c: char) -> bool {
    is_upper(c) || is_lower(c) || '0' <= c <= '9' || c == '+' || c == '/' || c == '='
}

/// `base64::Engine::decode` of the `STANDARD` engine.
#[verifier::external_body]
pub(crate) fn base64_decode(text: &str) -> (r: Option<Vec<u8>>)
    ensures
        match r {
            Some(bytes) => b64_decode(text@) == Some(bytes@),
            None => b64_decode(text@) is None,
        },
{
    base64::Engine::decode(&base64::engine::general_purpose::STANDARD, text).ok()
}

/// `base64::Engine::encode` of the `STANDARD` engine: padded to groups of four
/// characters of the alphabet, and decoding the text gives the bytes back.
#[verifier::external_body]
pub(crate) fn base64_encode(bytes: &[u8]) -> (r: String)
    ensures
        r@ == b64_encode(bytes@),
        b64_decode(r@) == Some(bytes@),
        r@.len() % 4 == 0,
        forall|i: int| 0 <= i < r@.len() ==> is_b64_char(#[trigger] r@[i]),
{
    base64::Engine::encode(&base64::engine::general_purpose::STANDARD, bytes)
}

/// `s`, filled up with `=` to a multiple of four bytes.
pub open spec fn padded(s: Seq<char>) -> Seq<char> {
    let over = encode_utf8(s).len() % 4;
    if over == 0 {
        s
    } else {
        s + Seq::new((4 - over) as nat, |i: int| '=')
    }
}

/// The text that `s` is the Base64 form of, padding left out or not.
pub open spec fn b64_text(s: Seq<char>) -> Option<Seq<char>> {
    match b64_decode(padded(s)) {
        Some(bytes) => if valid_utf8(bytes) {
            Some(decode_utf8(bytes))
        } else {
            None
        },
        None => None,
    }
}

/// `s` without backslashes and padded, where that is Base64.
pub open spec fn b64_cleaned(s: Seq<char>) -> Option<Seq<char>> {
    let clean = padded(without_char(s, '\\'));
    if b64_decode(clean) is Some {
        Some(clean)
    } else {
        None
    }
}

/// Fills up with `=` to a multiple of four bytes.
pub fn pad_base64(s: &str) -> (r: String)
    ensures
        r@ == padded(s@),
{
    let over: usize = s.as_bytes().len() % 4;
    let mut r = owned(s);
    if over > 0 {
        let missing: usize = 4 - over;
        let mut i: usize = 0;
        assert(r@ =~= s@ + Seq::new(0, |i: int| '='));
        while i < missing
            invariant
                i <= missing,
                r@ == s@ + Seq::new(i as nat, |i: int| '='),
            decreases missing - i,
        {
            r.push('=');
            i = i + 1;
            assert(r@ =~= s@ + Seq::new(i as nat, |i: int| '='));
        }
    }
    r
}

/// Base64 decode to text, padding the input first.
pub fn safe_b64_decode(s: &str) -> (r: Option<String>)
    ensures
        opt_text(r) == b64_text(s@),
{
    let full = pad_base64(s);
    match base64_decode(full.as_str()) {
        Some(bytes) => string_from_utf8(bytes),
        None => None,
    }
}

/// Strips backslashes and pads; fails where the outcome is not Base64.
pub fn clean_base64(s: &str) -> (r: Option<String>)
    ensures
        opt_text(r) == b64_cleaned(s@),
{
    let clean = str_without_char(s, '\\');
    let full = pad_base64(clean.as_str());
    match base64_decode(full.as_str()) {
        Some(_) => Some(full),
        None => None,
    }
}

// ---------------------------------------------------------------------------
// Substitutions
// ---------------------------------------------------------------------------

/// ROT13 of one character.
pub open spec fn rot13_char(c: char) -> char {
    if is_upper(c) {
        ((((c as u32) - 65 + 13) % 26 + 65) as u32) as char
    } else if is_lower(c) {
        ((((c as u32) - 97 + 13) % 26 + 97) as u32) as char
    } else {
        c
    }
}

/// ROT13 of a text: letters only.
pub open spec fn rot13_text(s: Seq<char>) -> Seq<char> {
    Seq::new(s.len(), |i: int| rot13_char(s[i]))
}

/// The character whose code point lies `amount` below; characters without one
/// stay.
pub open spec fn lowered_char(c: char, amount: u32) -> char {
    match char_of_code((c as u32) - amount) {
        Some(d) => d,
        None => c,
    }
}

/// The character whose code point lies `amount` above; characters without one
/// stay.
pub open spec fn raised_char(c: char, amount: u32) -> char {
    match char_of_code((c as u32) + amount) {
        Some(d) => d,
        None => c,
    }
}

pub open spec fn lowered(s: Seq<char>, amount: u32) -> Seq<char> {
    Seq::new(s.len(), |i: int| lowered_char(s[i], amount))
}

pub open spec fn raised(s: Seq<char>, amount: u32) -> Seq<char> {
    Seq::new(s.len(), |i: int| raised_char(s[i], amount))
}

/// `s` with each of `patterns` removed, one pattern after the other.
pub open spec fn remove_each(s: Seq<char>, patterns: Seq<Seq<char>>) -> Seq<char>
    decreases patterns.len(),
{
    if patterns.len() == 0 {
        s
    } else {
        remove_each(remove_all(s, patterns[0]), patterns.skip(1))
    }
}

/// Applies ROT13 to the ASCII letters.
pub fn rot13(s: &str) -> (r: String)
    ensures
        r@ == rot13_text(s@),
{
    let v = chars_of(s);
    let mut r = String::new();
    let mut i: usize = 0;
    while i < v.len()
        invariant
            i <= v@.len(),
            v@ == s@,
            r@ =~= rot13_text(s@).take(i as int),
        decreases v.len() - i,
    {
        let c = v[i];
        let d: char = if 'A' <= c && c <= 'Z' {
            let code: u32 = (c as u32 - 65 + 13) % 26 + 65;
            (code as u8) as char
        } else if 'a' <= c && c <= 'z' {
            let code: u32 = (c as u32 - 97 + 13) % 26 + 97;
            (code as u8) as char
        } else {
            c
        };
        r.push(d);
        i = i + 1;
    }
    assert(r@ =~= rot13_text(s@));
    r
}

/// Shifts code points down by `shift`.
pub fn shift_chars(s: &str, shift: u32) -> (r: String)
    ensures
        r@ == lowered(s@, shift),
{
    let v = chars_of(s);
    let mut r = String::new();
    let mut i: usize = 0;
    while i < v.len()
        invariant
            i <= v@.len(),
            v@ == s@,
            r@ =~= lowered(s@, shift).take(i as int),
        decreases v.len() - i,
    {
        let c = v[i];
        proof {
            char_is_scalar(c);
        }
        let code: u32 = c as u32;
        let d: char = if code >= shift {
            match char_from_code(code - shift) {
                Some(d) => d,
                None => c,
            }
        } else {
            c
        };
        r.push(d);
        i = i + 1;
    }
    assert(r@ =~= lowered(s@, shift));
    r
}

/// Shifts code points up by `shift`.
pub fn raise_chars(s: &str, shift: u32) -> (r: String)
    requires
        shift <= 0x10FFFF,
    ensures
        r@ == raised(s@, shift),
{
    let v = chars_of(s);
    let mut r = String::new();
    let mut i: usize = 0;
    while i < v.len()
        invariant
            i <= v@.len(),
            v@ == s@,
            shift <= 0x10FFFF,
            r@ =~= raised(s@, shift).take(i as int),
        decreases v.len() - i,
    {
        let c = v[i];
        proof {
            char_is_scalar(c);
        }
        let d: char = match char_from_code(c as u32 + shift) {
            Some(d) => d,
            None => c,
        };
        r.push(d);
        i = i + 1;
    }
    assert(r@ =~= raised(s@, shift));
    r
}

/// Removes each pattern in turn.
pub fn strip_patterns(s: &str, patterns: &Vec<String>) -> (r: String)
    ensures
        r@ == remove_each(s@, texts(patterns@)),
{
    let mut r = owned(s);
    let mut i: usize = 0;
    let ghost all = texts(patterns@);
    assert(all.skip(0) =~= all);
    while i < patterns.len()
        invariant
            i <= patterns@.len(),
            all == texts(patterns@),
            remove_each(s@, all) == remove_each(r@, all.skip(i as int)),
        decreases patterns.len() - i,
    {
        assert(all.skip(i as int)[0] == patterns@[i as int]@);
        assert(all.skip(i as int).skip(1) =~= all.skip(i + 1));
        r = str_remove_all(r.as_str(), patterns[i].as_str());
        i = i + 1;
    }
    r
}

/// The separators that the Voe player scatters over its payload.
pub open spec fn voe_markers() -> Seq<Seq<char>> {
    seq!["@$"@, "^^"@, "~@"@, "%?"@, "*~"@, "!!"@, "#&"@]
}

/// Removes the Voe separators.
pub fn replace_patterns(s: &str) -> (r: String)
    ensures
        r@ == remove_each(s@, voe_markers()),
{
    let markers: Vec<String> = vec![
        owned("@$"),
        owned("^^"),
        owned("~@"),
        owned("%?"),
        owned("*~"),
        owned("!!"),
        owned("#&"),
    ];
    assert(texts(markers@) =~= voe_markers());
    strip_patterns(s, &markers)
}

// ---------------------------------------------------------------------------
// Session activation
// ---------------------------------------------------------------------------

/// The text that an activation payload stands for: shift down by three,
/// reverse, Base64 decode.
pub open spec fn activation_plain(encoded: Seq<char>) -> Option<Seq<char>> {
    b64_text(lowered(encoded, 3).reverse())
}

/// An activation payload in its encoded form: Base64, reversed, shifted up by
/// three.
pub open spec fn activation_encoded(payload: Seq<char>) -> Seq<char> {
    raised(b64_encode(encode_utf8(payload)).reverse(), 3)
}

/// Encodes an activation payload. Decoding it gives the payload back.
pub fn encode_activation(payload: &str) -> (r: String)
    ensures
        r@ == activation_encoded(payload@),
        activation_plain(r@) == Some(payload@),
{
    let b64 = base64_encode(payload.as_bytes());
    let reversed = str_reverse(b64.as_str());
    let r = raise_chars(reversed.as_str(), 3);
    proof {
        assert forall|i: int| 0 <= i < reversed@.len() implies is_char_code(
            (#[trigger] reversed@[i] as u32) + 3,
        ) by {
            assert(is_b64_char(b64@[b64@.len() - 1 - i]));
        }
        lemma_lowered_undoes_raised(reversed@, 3);
        lemma_reverse_involution(b64@);
        assert(is_ascii_chars(b64@)) by {
            assert forall|i: int| 0 <= i < b64@.len() implies 0 <= (#[trigger] b64@[i] as int)
                < 128 by {
                assert(is_b64_char(b64@[i]));
            }
        }
        is_ascii_chars_encode_utf8(b64@);
        encode_utf8_valid_utf8(payload@);
        encode_utf8_decode_utf8(payload@);
    }
    r
}

// ---------------------------------------------------------------------------
// Laws
// ---------------------------------------------------------------------------

/// ROT13 is its own inverse.
pub proof fn lemma_rot13_involution(s: Seq<char>)
    ensures
        rot13_text(rot13_text(s)) == s,
{
    assert forall|i: int| 0 <= i < s.len() implies rot13_char(rot13_char(s[i])) == s[i] by {
        lemma_rot13_char_involution(s[i]);
    }
    assert(rot13_text(rot13_text(s)) =~= s);
}

proof fn lemma_rot13_char_involution(c: char)
    ensures
        rot13_char(rot13_char(c)) == c,
{
}

/// Reversing twice gives the text back.
pub proof fn lemma_reverse_involution(s: Seq<char>)
    ensures
        s.reverse().reverse() == s,
{
    assert(s.reverse().reverse() =~= s);
}

proof fn lemma_lowered_char_undoes_raised(c: char, amount: u32)
    requires
        is_char_code((c as u32) + amount),
    ensures
        lowered_char(raised_char(c, amount), amount) == c,
{
    let code = (c as u32) + amount;
    char_is_scalar(c);
    char_is_scalar((code as u32) as char);
    assert(((code as u32) as char) as u32 == code as u32);
    assert((((c as u32) as int) as u32) as char == c);
}

/// Shifting down undoes shifting up, wherever the shifted code points exist.
pub proof fn lemma_lowered_undoes_raised(s: Seq<char>, amount: u32)
    requires
        forall|i: int| 0 <= i < s.len() ==> is_char_code((#[trigger] s[i] as u32) + amount),
    ensures
        lowered(raised(s, amount), amount) == s,
{
    assert forall|i: int| 0 <= i < s.len() implies lowered_char(
        raised_char(s[i], amount),
        amount,
    ) == s[i] by {
        lemma_lowered_char_undoes_raised(s[i], amount);
    }
    assert(lowered(raised(s, amount), amount) =~= s);
}

/// Removing patterns that do not occur changes nothing.
pub proof fn lemma_remove_all_absent(s: Seq<char>, p: Seq<char>)
    requires
        !crate::text::contains(s, p),
    ensures
        remove_all(s, p) == s,
    decreases s.len(),
{
    if s.len() > 0 && p.len() > 0 {
        assert(!crate::text::occurs_at(s, p, 0));
        assert forall|i: int| !crate::text::occurs_at(s.skip(1), p, i) by {
            if crate::text::occurs_at(s.skip(1), p, i) {
                assert(s.skip(1).subrange(i, i + p.len()) =~= s.subrange(i + 1, i + 1 + p.len()));
                assert(crate::text::occurs_at(s, p, i + 1));
            }
        }
        lemma_remove_all_absent(s.skip(1), p);
        assert(seq![s[0]] + s.skip(1) =~= s);
    }
}

} // verus!
