//! Laws of the primitives: encodings, numbers and texts, documents, moments
//! and identifiers.

use crate::clock::{
    hex_digits, hex_place, in_calendar, marked_random, representable, rfc3339_text, stamp_text,
    uuid_text, Timestamp,
};
use crate::codec::{
    activation_encoded, activation_plain, b64_cleaned, b64_decode, b64_encode, b64_text,
    is_b64_char, lowered, lowered_char, padded, raised, raised_char, remove_each, rot13_char,
    rot13_text, voe_markers,
};
use crate::deobfuscation::{at_path, chain_output, step_label, step_output};
use crate::json::{
    filled_member, json_parse, json_text, lookup, member, number_member, text_member, Tree,
};
use crate::patterns::first_capture;
use crate::provider::StepModel;
use crate::text::{
    after_last, all_digits, before, before_first, behind_last, char_index, char_of_code, contains,
    decimal_text, decimal_value, ends_with, find, hex_digit, is_alpha, is_char_code, is_digit,
    is_lower, is_space, is_upper, lemma_behind_last, lemma_char_index, lemma_find_from, lower,
    occurs_at, parse_unsigned, remove_all, split, starts_with, strip_prefix, trim, trim_end,
    trim_start, without_char,
};
use vstd::arithmetic::power::pow;
use vstd::prelude::*;
use vstd::utf8::{decode_utf8, encode_utf8, is_ascii_chars, valid_utf8};

verus! {

// ---------------------------------------------------------------------------
// Encodings
// ---------------------------------------------------------------------------

/// ROT13 turns a letter into the one thirteen places away, in the same case,
/// and leaves everything else.
pub proof fn law_rot13(c: char)
    ensures
        'a' <= c <= 'm' ==> rot13_char(c) as u32 == c as u32 + 13,
        'n' <= c <= 'z' ==> rot13_char(c) as u32 == c as u32 - 13,
        'A' <= c <= 'M' ==> rot13_char(c) as u32 == c as u32 + 13,
        'N' <= c <= 'Z' ==> rot13_char(c) as u32 == c as u32 - 13,
        !('a' <= c <= 'z') && !('A' <= c <= 'Z') ==> rot13_char(c) == c,
        rot13_text(seq![c]) == seq![rot13_char(c)],
{
    assert(rot13_text(seq![c]) =~= seq![rot13_char(c)]);
}

/// Texts are turned character by character.
pub proof fn law_character_by_character(s: Seq<char>, amount: u32, i: int)
    requires
        0 <= i < s.len(),
    ensures
        rot13_text(s).len() == s.len(),
        rot13_text(s)[i] == rot13_char(s[i]),
        lowered(s, amount).len() == s.len(),
        lowered(s, amount)[i] == lowered_char(s[i], amount),
        raised(s, amount).len() == s.len(),
        raised(s, amount)[i] == raised_char(s[i], amount),
{
}

/// Shifting changes a code point by the amount, where there is a character at
/// the other end, and else not at all.
pub proof fn law_shifts(c: char, amount: u32)
    ensures
        is_char_code((c as u32) - amount) ==> lowered_char(c, amount) as u32 == c as u32 - amount,
        !is_char_code((c as u32) - amount) ==> lowered_char(c, amount) == c,
        is_char_code((c as u32) + amount) ==> raised_char(c, amount) as u32 == c as u32 + amount,
        !is_char_code((c as u32) + amount) ==> raised_char(c, amount) == c,
{
}

/// Padding adds up to three `=` behind a text, to a multiple of four bytes.
pub proof fn law_padding(s: Seq<char>)
    ensures
        padded(s).len() < s.len() + 4,
        padded(s).take(s.len() as int) == s,
        (encode_utf8(s).len() + (padded(s).len() - s.len())) % 4 == 0,
        forall|i: int| s.len() <= i < padded(s).len() ==> #[trigger] padded(s)[i] == '=',
{
    assert(padded(s).take(s.len() as int) =~= s);
}

/// What is decoded is the padded text, where its bytes are UTF-8; cleaning
/// takes backslashes out first, and gives the text that can be decoded.
pub proof fn law_base64(s: Seq<char>)
    ensures
        b64_text(s) is Some <==> (b64_decode(padded(s)) matches Some(bytes) && valid_utf8(bytes)),
        b64_text(s) matches Some(text) ==> text == decode_utf8(b64_decode(padded(s))->0),
        b64_cleaned(s) is Some <==> b64_decode(padded(without_char(s, '\\'))) is Some,
        b64_cleaned(s) matches Some(clean) ==> clean == padded(without_char(s, '\\')),
{
}

/// The separators that the Voe player scatters.
pub proof fn law_voe_separators(blob: Seq<char>)
    ensures
        voe_markers() == seq!["@$"@, "^^"@, "~@"@, "%?"@, "*~"@, "!!"@, "#&"@],
        remove_each(blob, voe_markers()) == remove_all(
            remove_all(
                remove_all(
                    remove_all(
                        remove_all(remove_all(remove_all(blob, "@$"@), "^^"@), "~@"@),
                        "%?"@,
                    ),
                    "*~"@,
                ),
                "!!"@,
            ),
            "#&"@,
        ),
{
    let m = voe_markers();
    reveal_with_fuel(remove_each, 8);
    assert(m.skip(1)[0] == m[1]);
    assert(m.skip(1).skip(1)[0] == m[2]);
    assert(m.skip(1).skip(1).skip(1)[0] == m[3]);
    assert(m.skip(1).skip(1).skip(1).skip(1)[0] == m[4]);
    assert(m.skip(1).skip(1).skip(1).skip(1).skip(1)[0] == m[5]);
    assert(m.skip(1).skip(1).skip(1).skip(1).skip(1).skip(1)[0] == m[6]);
}

/// Removing a pattern takes it out where it stands, and goes on behind it.
pub proof fn law_removal(p: Seq<char>, rest: Seq<char>, c: char)
    requires
        p.len() > 0,
    ensures
        remove_all(p + rest, p) == remove_all(rest, p),
        !starts_with(seq![c] + rest, p) ==> remove_all(seq![c] + rest, p) == seq![c] + remove_all(
            rest,
            p,
        ),
        remove_all(Seq::empty(), p) == Seq::<char>::empty(),
{
    assert((p + rest).subrange(0, p.len() as int) =~= p);
    assert((p + rest).skip(p.len() as int) =~= rest);
    assert((seq![c] + rest).skip(1) =~= rest);
}

/// Steps do what their names say.
pub proof fn law_steps(input: Seq<char>, amount: u32, pattern: Seq<char>, key: Seq<char>)
    ensures
        step_output(StepModel::Rot13, input) == Some(rot13_text(input)),
        step_output(StepModel::Reverse, input) == Some(input.reverse()),
        step_output(StepModel::CharShift(amount), input) == Some(lowered(input, amount)),
        step_output(StepModel::Base64Decode, input) == b64_text(input),
        step_output(StepModel::CleanBase64, input) == b64_cleaned(input),
        step_output(StepModel::StripUnderscores, input) == Some(without_char(input, '_')),
        step_output(StepModel::StripMarkers(seq![pattern]), input) == Some(
            remove_all(input, pattern),
        ),
        first_capture(pattern, input) matches Some(Some(group)) ==> step_output(
            StepModel::RegexExtract(pattern),
            input,
        ) == Some(group),
        json_parse(input) is Err ==> step_output(StepModel::JsonParse(key), input) is None,
{
    reveal_with_fuel(remove_each, 2);
}

/// A key without dots leads to a member; a text there is taken as it is, and
/// everything else as JSON.
pub proof fn law_json_step(input: Seq<char>, tree: Tree, key: Seq<char>)
    requires
        json_parse(input) == Ok::<Tree, Seq<char>>(tree),
        forall|i: int| 0 <= i < key.len() ==> #[trigger] key[i] != '.',
    ensures
        member(tree, key) is None ==> step_output(StepModel::JsonParse(key), input) is None,
        member(tree, key) matches Some(Tree::Text(t)) ==> step_output(
            StepModel::JsonParse(key),
            input,
        ) == Some(t),
        member(tree, key) matches Some(value) ==> (!(value is Text) ==> step_output(
            StepModel::JsonParse(key),
            input,
        ) == json_text(value)),
{
    lemma_char_index(key, '.', 0);
    let keys = split(key, '.');
    assert(keys =~= seq![key]);
    reveal_with_fuel(at_path, 3);
    assert(keys[0] == key);
    assert(keys.skip(1).len() == 0);
}

/// Dots lead on from member to member.
pub proof fn law_path(tree: Tree, first: Seq<char>, rest: Seq<Seq<char>>)
    ensures
        at_path(tree, seq![first] + rest) == match member(tree, first) {
            Some(next) => at_path(next, rest),
            None => None,
        },
        at_path(tree, Seq::empty()) == Some(tree),
{
    assert((seq![first] + rest).skip(1) =~= rest);
}

// ---------------------------------------------------------------------------
// Documents
// ---------------------------------------------------------------------------

/// A member is the first field of that name, and only objects have members.
pub proof fn law_member_found(fields: Seq<(Seq<char>, Tree)>, key: Seq<char>, k: int)
    requires
        0 <= k < fields.len(),
        fields[k].0 == key,
        forall|j: int| 0 <= j < k ==> (#[trigger] fields[j]).0 != key,
    ensures
        member(Tree::Object(fields), key) == Some(fields[k].1),
    decreases k,
{
    if k > 0 {
        assert(fields[0].0 != key);
        let rest = fields.skip(1);
        assert forall|j: int| 0 <= j < k - 1 implies (#[trigger] rest[j]).0 != key by {
            assert(rest[j] == fields[j + 1]);
        }
        law_member_found(rest, key, k - 1);
    }
}

/// Without such a field, or outside of an object, there is none.
pub proof fn law_member_missing(tree: Tree, key: Seq<char>)
    requires
        tree matches Tree::Object(fields) ==> forall|j: int|
            0 <= j < fields.len() ==> (#[trigger] fields[j]).0 != key,
    ensures
        member(tree, key) is None,
    decreases tree,
{
    if let Tree::Object(fields) = tree {
        lemma_lookup_missing(fields, key);
    }
}

proof fn lemma_lookup_missing(fields: Seq<(Seq<char>, Tree)>, key: Seq<char>)
    requires
        forall|j: int| 0 <= j < fields.len() ==> (#[trigger] fields[j]).0 != key,
    ensures
        lookup(fields, key) is None,
    decreases fields.len(),
{
    if fields.len() > 0 {
        assert(fields[0].0 != key);
        let rest = fields.skip(1);
        assert forall|j: int| 0 <= j < rest.len() implies (#[trigger] rest[j]).0 != key by {
            assert(rest[j] == fields[j + 1]);
        }
        lemma_lookup_missing(rest, key);
    }
}

/// A text member is a string, and a filled one a string that is not empty; a
/// number member is a number that fits 64 bits.
pub proof fn law_member_kinds(tree: Tree, key: Seq<char>)
    ensures
        text_member(tree, key) matches Some(t) ==> member(tree, key) == Some(Tree::Text(t)),
        member(tree, key) matches Some(Tree::Text(t)) ==> {
            &&& text_member(tree, key) == Some(t)
            &&& t.len() > 0 ==> filled_member(tree, key) == Some(t)
            &&& t.len() == 0 ==> filled_member(tree, key) is None
        },
        filled_member(tree, key) matches Some(t) ==> t.len() > 0 && member(tree, key) == Some(
            Tree::Text(t),
        ),
        number_member(tree, key) matches Some(n) ==> (member(tree, key) matches Some(
            Tree::Number(value, _),
        ) && value == Some(n)),
        member(tree, key) matches Some(Tree::Number(value, _)) ==> number_member(tree, key)
            == value,
{
}

// ---------------------------------------------------------------------------
// Texts
// ---------------------------------------------------------------------------

/// Texts are searched as concatenation tells.
pub proof fn law_search(a: Seq<char>, p: Seq<char>, b: Seq<char>, s: Seq<char>)
    ensures
        contains(a + p + b, p),
        starts_with(p + b, p),
        ends_with(a + p, p),
        contains(s, p) ==> exists|i: int| #![trigger s.take(i)] 0 <= i <= s.len() - p.len() && s
            == s.take(i) + p + s.skip(i + p.len()),
        starts_with(s, p) ==> s == p + s.skip(p.len() as int),
        strip_prefix(p + b, p) == Some(b),
        !starts_with(s, p) ==> strip_prefix(s, p) is None,
{
    let full = a + p + b;
    assert(full.subrange(a.len() as int, (a.len() + p.len()) as int) =~= p);
    assert(occurs_at(full, p, a.len() as int));
    assert((p + b).subrange(0, p.len() as int) =~= p);
    assert((p + b).skip(p.len() as int) =~= b);
    assert((a + p).subrange(a.len() as int, (a.len() + p.len()) as int) =~= p);
    if contains(s, p) {
        let i = choose|i: int| occurs_at(s, p, i);
        assert(s =~= s.take(i) + s.subrange(i, i + p.len()) + s.skip(i + p.len()));
    }
    if starts_with(s, p) {
        assert(s =~= s.subrange(0, p.len() as int) + s.skip(p.len() as int));
    }
}

/// The first place of a pattern is the least one.
pub proof fn law_first_place(s: Seq<char>, p: Seq<char>, j: int)
    ensures
        occurs_at(s, p, j) ==> (find(s, p) matches Some(k) && k <= j && occurs_at(s, p, k)),
        find(s, p) is None ==> !contains(s, p),
{
    lemma_find_from(s, p, 0);
}

/// A text is cut at the first, or behind the last, of a character.
pub proof fn law_cuts(a: Seq<char>, c: char, b: Seq<char>)
    ensures
        (forall|i: int| 0 <= i < a.len() ==> #[trigger] a[i] != c) ==> before_first(
            a + seq![c] + b,
            c,
        ) == a && before_first(a, c) == a,
        (forall|i: int| 0 <= i < b.len() ==> #[trigger] b[i] != c) ==> after_last(
            a + seq![c] + b,
            c,
        ) == b && after_last(b, c) == b,
{
    let s = a + seq![c] + b;
    let n = s.len() as int;
    assert(s[a.len() as int] == c);
    if forall|i: int| 0 <= i < a.len() ==> #[trigger] a[i] != c {
        lemma_char_index(s, c, 0);
        lemma_char_index(a, c, 0);
        let k = char_index(s, c, 0);
        if k < a.len() {
            assert(s[k] == a[k]);
        }
        assert(s.take(k) =~= a);
        assert(a.take(char_index(a, c, 0)) =~= a);
    }
    if forall|i: int| 0 <= i < b.len() ==> #[trigger] b[i] != c {
        lemma_behind_last(s, c, n);
        lemma_behind_last(b, c, b.len() as int);
        let k = behind_last(s, c, n);
        if k > a.len() + 1 {
            assert(s[k - 1] == b[k - 1 - a.len() - 1]);
        }
        assert(s.skip(k) =~= b);
        let j = behind_last(b, c, b.len() as int);
        if j > 0 {
            assert(b[j - 1] == c);
        }
        assert(b.skip(j) =~= b);
    }
}

/// What is split comes back where the pieces are joined; no piece has the
/// character in it.
pub proof fn law_split(s: Seq<char>, c: char)
    ensures
        joined(split(s, c), c) == s,
        split(s, c).len() > 0,
        forall|i: int|
            0 <= i < split(s, c).len() ==> !(#[trigger] split(s, c)[i]).contains(c),
    decreases s.len(),
{
    lemma_char_index(s, c, 0);
    let k = char_index(s, c, 0);
    if k >= s.len() {
        assert(split(s, c) =~= seq![s]);
        assert(split(s, c).skip(1).len() == 0);
    } else {
        let rest = split(s.skip(k + 1), c);
        law_split(s.skip(k + 1), c);
        let all = split(s, c);
        assert(all =~= seq![s.take(k)] + rest);
        assert(all.skip(1) =~= rest);
        assert(all[0] == s.take(k));
        assert(joined(all, c) == s.take(k) + seq![c] + joined(rest, c));
        assert(s =~= s.take(k) + seq![c] + s.skip(k + 1));
        assert forall|i: int| 0 <= i < all.len() implies !(#[trigger] all[i]).contains(c) by {
            if i > 0 {
                assert(all[i] == rest[i - 1]);
            } else {
                assert forall|j: int| 0 <= j < k implies s.take(k)[j] != c by {
                    assert(s[j] != c);
                }
            }
        }
    }
}

/// Pieces with a character between them.
pub open spec fn joined(pieces: Seq<Seq<char>>, c: char) -> Seq<char>
    decreases pieces.len(),
{
    if pieces.len() == 0 {
        Seq::empty()
    } else if pieces.len() == 1 {
        pieces[0]
    } else {
        pieces[0] + seq![c] + joined(pieces.skip(1), c)
    }
}

/// Trimming leaves no white space at the ends, and takes away nothing else.
pub proof fn law_trim(s: Seq<char>)
    ensures
        trim(s).len() > 0 ==> !is_space(trim(s)[0]) && !is_space(trim(s).last()),
        exists|a: int, b: int| #[trigger] trimmed_to(s, a, b) && trim(s) == s.subrange(a, b),
{
    let a = lemma_trim_start(s);
    let mid = trim_start(s);
    let n = lemma_trim_end(mid);
    assert(mid.take(n) =~= s.subrange(a, a + n));
    assert forall|i: int| a + n <= i < s.len() implies is_space(#[trigger] s[i]) by {
        assert(mid[i - a] == s[i]);
    }
    assert(trimmed_to(s, a, a + n));
}

/// Whether everything outside of a range is white space.
pub open spec fn trimmed_to(s: Seq<char>, a: int, b: int) -> bool {
    &&& 0 <= a <= b <= s.len()
    &&& forall|i: int| 0 <= i < a ==> is_space(#[trigger] s[i])
    &&& forall|i: int| b <= i < s.len() ==> is_space(#[trigger] s[i])
}

proof fn lemma_trim_start(s: Seq<char>) -> (a: int)
    ensures
        0 <= a <= s.len(),
        trim_start(s) == s.skip(a),
        forall|i: int| 0 <= i < a ==> is_space(#[trigger] s[i]),
        a < s.len() ==> !is_space(s[a]),
    decreases s.len(),
{
    if s.len() > 0 && is_space(s[0]) {
        let k = lemma_trim_start(s.skip(1));
        assert(s.skip(1).skip(k) =~= s.skip(k + 1));
        assert forall|i: int| 0 <= i < k + 1 implies is_space(#[trigger] s[i]) by {
            if i > 0 {
                assert(s.skip(1)[i - 1] == s[i]);
            }
        }
        k + 1
    } else {
        assert(s.skip(0) =~= s);
        0
    }
}

proof fn lemma_trim_end(s: Seq<char>) -> (n: int)
    ensures
        0 <= n <= s.len(),
        trim_end(s) == s.take(n),
        forall|i: int| n <= i < s.len() ==> is_space(#[trigger] s[i]),
        n > 0 ==> !is_space(s[n - 1]),
    decreases s.len(),
{
    if s.len() > 0 && is_space(s.last()) {
        let n = lemma_trim_end(s.drop_last());
        assert(s.drop_last().take(n) =~= s.take(n));
        assert forall|i: int| n <= i < s.len() implies is_space(#[trigger] s[i]) by {
            if i < s.len() - 1 {
                assert(s.drop_last()[i] == s[i]);
            }
        }
        n
    } else {
        assert(s.take(s.len() as int) =~= s);
        s.len() as int
    }
}

/// Texts are ordered by the first character in which they differ; a text comes
/// before its continuations, and not before itself.
pub proof fn law_order(a: Seq<char>, x: char, y: char, b: Seq<char>, c: Seq<char>)
    ensures
        before(a + seq![x] + b, a + seq![y] + c, 0) <==> (x as u32) < (y as u32) || (x == y
            && before(b, c, 0)),
        before(a, a + seq![y] + c, 0),
        !before(a + seq![y] + c, a, 0),
        !before(a, a, 0),
{
    let s = a + seq![x] + b;
    let t = a + seq![y] + c;
    let n = a.len() as int;
    lemma_same_beginning(s, t, 0, n);
    lemma_same_beginning(a, t, 0, n);
    lemma_same_beginning(t, a, 0, n);
    lemma_same_beginning(a, a, 0, n);
    if x == y {
        lemma_behind_beginning(s, t, n + 1, b, c, 0);
    }
}

proof fn lemma_same_beginning(s: Seq<char>, t: Seq<char>, i: int, n: int)
    requires
        0 <= i <= n <= s.len(),
        n <= t.len(),
        forall|j: int| 0 <= j < n ==> #[trigger] s[j] == t[j],
    ensures
        before(s, t, i) == before(s, t, n),
    decreases n - i,
{
    if i < n {
        assert(s[i] == t[i]);
        lemma_same_beginning(s, t, i + 1, n);
    }
}

proof fn lemma_behind_beginning(
    s: Seq<char>,
    t: Seq<char>,
    n: int,
    b: Seq<char>,
    c: Seq<char>,
    i: int,
)
    requires
        0 <= n,
        0 <= i,
        s.len() == n + b.len(),
        t.len() == n + c.len(),
        forall|j: int| 0 <= j < b.len() ==> s[n + j] == #[trigger] b[j],
        forall|j: int| 0 <= j < c.len() ==> t[n + j] == #[trigger] c[j],
    ensures
        before(s, t, n + i) == before(b, c, i),
    decreases b.len() - i,
{
    if i < b.len() {
        assert(s[n + i] == b[i]);
        if i < c.len() {
            assert(t[n + i] == c[i]);
            lemma_behind_beginning(s, t, n, b, c, i + 1);
        }
    }
}

/// Which characters are letters, digits and white space.
pub proof fn law_characters(c: char)
    ensures
        is_upper(c) <==> 'A' <= c <= 'Z',
        is_lower(c) <==> 'a' <= c <= 'z',
        is_alpha(c) <==> is_upper(c) || is_lower(c),
        is_digit(c) <==> '0' <= c <= '9',
        c == ' ' || c == '\t' || c == '\n' || c == '\r' ==> is_space(c),
        '!' <= c <= '~' ==> !is_space(c),
{
}

/// The lowercase form of ASCII text has its capitals replaced, one by one.
pub proof fn law_lowercase(s: Seq<char>, i: int)
    requires
        is_ascii_chars(s),
        0 <= i < s.len(),
    ensures
        lower(s).len() == s.len(),
        'A' <= s[i] <= 'Z' ==> lower(s)[i] as u32 == s[i] as u32 + 32,
        !('A' <= s[i] <= 'Z') ==> lower(s)[i] == s[i],
{
    lemma_lower_char(s[i]);
}

proof fn lemma_lower_char(c: char)
    ensures
        'A' <= c <= 'Z' ==> crate::text::ascii_lower_char(c) as u32 == c as u32 + 32,
        !('A' <= c <= 'Z') ==> crate::text::ascii_lower_char(c) == c,
{
}

/// A text without a character is the rest of it, in order.
pub proof fn law_without_char(s: Seq<char>, c: char, d: char)
    ensures
        without_char(s.push(c), c) == without_char(s, c),
        d != c ==> without_char(s.push(d), c) == without_char(s, c).push(d),
        without_char(Seq::empty(), c) == Seq::<char>::empty(),
{
    reveal(Seq::filter);
    assert(s.push(c).drop_last() =~= s);
    assert(s.push(d).drop_last() =~= s);
}

// ---------------------------------------------------------------------------
// Numbers
// ---------------------------------------------------------------------------

/// Writing a number and reading it gives it back, up to the limit.
pub proof fn law_number_read_back(n: nat, max: nat)
    ensures
        decimal_text(n).len() > 0,
        all_digits(decimal_text(n)),
        decimal_value(decimal_text(n)) == n,
        n <= max ==> parse_unsigned(decimal_text(n), max) == Some(n),
        n > max ==> parse_unsigned(decimal_text(n), max) is None,
        n >= 10 ==> decimal_text(n)[0] != '0',
    decreases n,
{
    lemma_decimal(n);
    assert(is_digit(decimal_text(n)[0]));
}

proof fn lemma_decimal(n: nat)
    ensures
        decimal_text(n).len() > 0,
        all_digits(decimal_text(n)),
        decimal_value(decimal_text(n)) == n,
        n > 0 ==> decimal_text(n)[0] != '0',
    decreases n,
{
    let d = n % 10;
    let last = (('0' as int + d) as u32) as char;
    lemma_digit(d as int);
    if n < 10 {
        assert(decimal_text(n) =~= seq![last]);
        assert(decimal_text(n).drop_last() =~= Seq::empty());
        reveal_with_fuel(decimal_value, 2);
    } else {
        let front = decimal_text(n / 10);
        lemma_decimal(n / 10);
        assert(decimal_text(n) == front.push(last));
        assert(front.push(last).drop_last() =~= front);
        assert(front.push(last)[0] == front[0]);
        assert forall|i: int| 0 <= i < front.push(last).len() implies is_digit(
            #[trigger] front.push(last)[i],
        ) by {
            if i < front.len() {
                assert(is_digit(front[i]));
            }
        }
    }
}

proof fn lemma_digit(d: int)
    requires
        0 <= d < 10,
    ensures
        is_digit((('0' as int + d) as u32) as char),
        ((('0' as int + d) as u32) as char) as int - '0' as int == d,
        d > 0 ==> (('0' as int + d) as u32) as char != '0',
{
}

/// What is read is digits, behind a plus sign or not, up to the limit.
pub proof fn law_number_read(s: Seq<char>, max: nat)
    ensures
        s.len() > 0 && all_digits(s) && decimal_value(s) <= max ==> parse_unsigned(s, max) == Some(
            decimal_value(s),
        ) && parse_unsigned(seq!['+'] + s, max) == Some(decimal_value(s)),
        parse_unsigned(s, max) matches Some(n) ==> n <= max && s.len() > 0,
        parse_unsigned(Seq::empty(), max) is None,
{
    if s.len() > 0 && all_digits(s) {
        assert(is_digit(s[0]));
    }
    assert((seq!['+'] + s).skip(1) =~= s);
}

/// The value of digits is theirs in base ten.
pub proof fn law_decimal_value(s: Seq<char>, c: char)
    requires
        '0' <= c <= '9',
    ensures
        decimal_value(s.push(c)) == 10 * decimal_value(s) + (c as int - '0' as int),
        decimal_value(Seq::empty()) == 0,
{
    assert(s.push(c).drop_last() =~= s);
}

/// Hexadecimal digits are `0` to `9` and `a` to `f`.
pub proof fn law_hex_digit(n: u8)
    requires
        n < 16,
    ensures
        n < 10 ==> hex_digit(n) as u32 == '0' as u32 + n,
        n >= 10 ==> hex_digit(n) as u32 == 'a' as u32 + n - 10,
{
}

// ---------------------------------------------------------------------------
// Identifiers and moments
// ---------------------------------------------------------------------------

/// An identifier is written with 32 digits in groups of 8, 4, 4, 4 and 12.
pub proof fn law_uuid_form(bits: u128)
    ensures
        uuid_text(bits).len() == 36,
        uuid_text(bits)[8] == '-',
        uuid_text(bits)[13] == '-',
        uuid_text(bits)[18] == '-',
        uuid_text(bits)[23] == '-',
        uuid_text(bits)[35] == hex_digit((bits % 16) as u8),
        marked_random(bits) ==> uuid_text(bits)[14] == '4',
{
    reveal_strlit("-");
    assert(pow(16, 0) == 1) by {
        reveal_with_fuel(pow, 1);
    }
    assert(uuid_text(bits)[35] == hex_digits(bits, 20, 32)[11]);
    assert(hex_place(bits, 31) == bits % 16);
    assert(uuid_text(bits)[14] == hex_digits(bits, 12, 16)[0]);
    assert(pow(16, 19) == 0x1000_0000_0000_0000_0000) by {
        reveal_with_fuel(pow, 20);
    }
}

/// The nil identifier is not random.
pub proof fn law_nil_not_random(bits: u128)
    ensures
        marked_random(bits) ==> bits != 0,
{
}

/// A moment without a written form has an empty one.
pub proof fn law_stamp(t: Timestamp)
    ensures
        rfc3339_text(t.secs, t.nanos) matches Some(text) ==> stamp_text(t) == text,
        rfc3339_text(t.secs, t.nanos) is None ==> stamp_text(t).len() == 0,
        in_calendar(t) ==> representable(t),
{
}

/// An activation payload is sent as Base64, back to front, each character three
/// code points up.
pub proof fn law_activation_form(payload: Seq<char>, i: int)
    requires
        0 <= i < b64_encode(encode_utf8(payload)).len(),
    ensures
        ({
            let plain = b64_encode(encode_utf8(payload));
            &&& activation_encoded(payload).len() == plain.len()
            &&& activation_encoded(payload)[i] == raised_char(plain[plain.len() - 1 - i], 3)
        }),
{
}

/// What an activation payload stands for: three code points down, back to
/// front, Base64.
pub proof fn law_activation_read(plain: Seq<char>)
    requires
        forall|i: int| 0 <= i < plain.len() ==> is_char_code((#[trigger] plain[i] as u32) + 3),
    ensures
        activation_plain(raised(plain.reverse(), 3)) == b64_text(plain),
{
    assert forall|i: int| 0 <= i < plain.reverse().len() implies is_char_code(
        (#[trigger] plain.reverse()[i] as u32) + 3,
    ) by {
        assert(plain.reverse()[i] == plain[plain.len() - 1 - i]);
    }
    crate::codec::lemma_lowered_undoes_raised(plain.reverse(), 3);
    crate::codec::lemma_reverse_involution(plain);
}

/// Base64 is written with letters, digits, `+`, `/` and `=`.
pub proof fn law_base64_alphabet(c: char)
    ensures
        is_b64_char(c) <==> is_alpha(c) || is_digit(c) || c == '+' || c == '/' || c == '=',
{
}

/// What steps are called.
pub proof fn law_step_names(amount: u32, pattern: Seq<char>, patterns: Seq<Seq<char>>)
    ensures
        step_label(StepModel::Rot13) == "rot13"@,
        step_label(StepModel::StripMarkers(patterns)) == "strip_markers"@,
        step_label(StepModel::Base64Decode) == "base64_decode"@,
        step_label(StepModel::CharShift(amount)) == "char_shift"@,
        step_label(StepModel::Reverse) == "reverse"@,
        step_label(StepModel::JsonParse(pattern)) == "json_parse"@,
        step_label(StepModel::RegexExtract(pattern)) == "regex_extract"@,
        step_label(StepModel::CleanBase64) == "clean_base64"@,
        step_label(StepModel::StripUnderscores) == "strip_underscores"@,
{
}

/// A chain without steps gives its input back; a longer one hands what its
/// first step makes of the input on to the rest, and fails with it.
pub proof fn law_chain(step: StepModel, rest: Seq<StepModel>, input: Seq<char>)
    ensures
        chain_output(Seq::empty(), input) == Some(input),
        step_output(step, input) matches Some(next) ==> chain_output(seq![step] + rest, input)
            == chain_output(rest, next),
        step_output(step, input) is None ==> chain_output(seq![step] + rest, input) is None,
{
    assert((seq![step] + rest).skip(1) =~= rest);
}

/// White space is what Unicode counts as such: the control characters from tab
/// to carriage return, the space, and a few others.
pub proof fn law_white_space(c: char)
    ensures
        is_space(c) <==> {
            let code = c as u32;
            ||| 9 <= code <= 13
            ||| code == 32
            ||| code == 0x85
            ||| code == 0xa0
            ||| code == 0x1680
            ||| 0x2000 <= code <= 0x200a
            ||| code == 0x2028
            ||| code == 0x2029
            ||| code == 0x202f
            ||| code == 0x205f
            ||| code == 0x3000
        },
{
}

/// Every number up to 0x10ffff is a code point, but for the surrogates.
pub proof fn law_code_points(code: int)
    ensures
        is_char_code(code) <==> 0 <= code <= 0x10ffff && !(0xd800 <= code <= 0xdfff),
        is_char_code(code) ==> (char_of_code(code) matches Some(c) && c as u32 == code),
        !is_char_code(code) ==> char_of_code(code) is None,
{
}

} // verus!
