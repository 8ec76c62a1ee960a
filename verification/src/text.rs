//! Small operations on strings and byte strings.

use vstd::prelude::*;
use vstd::slice::slice_subrange;
use vstd::utf8::{
    char_u32_cast, decode_first_scalar, decode_utf8, decode_utf8_encode_utf8, decode_utf8_split,
    encode_scalar, encode_utf8, encode_utf8_decode_utf8, encode_utf8_first_scalar,
    encode_utf8_valid_utf8, is_char_boundary, is_char_boundary_iff_is_leading_byte,
    is_ascii_chars, is_char_boundary_start_end_of_seq, length_of_first_scalar, pop_first_scalar,
    valid_first_scalar, valid_utf8, valid_utf8_split,
};

verus! {

/// Whether `needle` occurs in `hay` as a contiguous run.
pub open spec fn is_infix<T>(needle: Seq<T>, hay: Seq<T>) -> bool {
    exists|i: int|
        0 <= i && i + needle.len() <= hay.len() && #[trigger] hay.subrange(
            i,
            i + needle.len(),
        ) == needle
}

/// Whether two byte strings hold the same bytes.
pub fn bytes_eq(a: &[u8], b: &[u8]) -> (r: bool)
    ensures
        r == (a@ == b@),
{
    if a.len() != b.len() {
        return false;
    }
    let mut i: usize = 0;
    while i < a.len()
        invariant
            a.len() == b.len(),
            i <= a.len(),
            forall|j: int| 0 <= j < i ==> a@[j] == b@[j],
        decreases a.len() - i,
    {
        if a[i] != b[i] {
            return false;
        }
        i += 1;
    }
    assert(a@ =~= b@);
    true
}

/// Whether two strings hold the same characters.
pub fn str_eq(a: &str, b: &str) -> (r: bool)
    ensures
        r == (a@ == b@),
{
    proof {
        encode_utf8_decode_utf8(a@);
        encode_utf8_decode_utf8(b@);
    }
    bytes_eq(a.as_bytes(), b.as_bytes())
}

/// Whether `bytes` begins with `prefix`.
pub fn bytes_start_with(bytes: &[u8], prefix: &[u8]) -> (r: bool)
    ensures
        r == prefix@.is_prefix_of(bytes@),
{
    if prefix.len() > bytes.len() {
        return false;
    }
    let mut i: usize = 0;
    while i < prefix.len()
        invariant
            prefix.len() <= bytes.len(),
            i <= prefix.len(),
            forall|j: int| 0 <= j < i ==> bytes@[j] == prefix@[j],
        decreases prefix.len() - i,
    {
        if bytes[i] != prefix[i] {
            return false;
        }
        i += 1;
    }
    true
}

/// The two strings put one after the other.
pub fn joined(a: &str, b: &str) -> (r: String)
    ensures
        r@ == a@ + b@,
{
    let mut out = String::from_str(a);
    out.append(b);
    out
}

/// The bytes of two texts put together are the bytes of the one, then of
/// the other.
pub proof fn lemma_encode_add(a: Seq<char>, b: Seq<char>)
    ensures
        encode_utf8(a + b) == encode_utf8(a) + encode_utf8(b),
    decreases a.len(),
{
    if a.len() > 0 {
        lemma_encode_add(a.drop_first(), b);
        assert((a + b).drop_first() =~= a.drop_first() + b);
    }
}

/// A text whose bytes open the bytes of another opens that other.
pub proof fn lemma_prefix_of_bytes(p: Seq<char>, s: Seq<char>)
    requires
        encode_utf8(p).is_prefix_of(encode_utf8(s)),
    ensures
        p.is_prefix_of(s),
    decreases p.len(),
{
    if p.len() > 0 {
        // The first characters are the same, as their bytes are.
        let bp = encode_utf8(p);
        let width = encode_scalar(p[0] as u32).len() as int;
        encode_utf8_first_scalar(p);
        encode_utf8_first_scalar(s);
        char_u32_cast(p[0], p[0] as u32);
        char_u32_cast(s[0], s[0] as u32);
        // And so are the rest, by their bytes.
        let rp = encode_utf8(p.drop_first());
        let rs = encode_utf8(s.drop_first());
        assert(rp =~= bp.subrange(width, bp.len() as int));
        assert(rp =~= rs.subrange(0, rp.len() as int));
        lemma_prefix_of_bytes(p.drop_first(), s.drop_first());
        assert(p =~= s.subrange(0, p.len() as int)) by {
            assert forall|i: int| 0 <= i < p.len() implies p[i] == s[i] by {
                if i > 0 {
                    assert(p.drop_first()[i - 1] == s.drop_first().subrange(
                        0,
                        p.len() - 1,
                    )[i - 1]);
                }
            }
        }
    }
}

/// A text opens another exactly when its bytes open the bytes of the
/// other.
pub proof fn lemma_prefix_iff_bytes(p: Seq<char>, s: Seq<char>)
    ensures
        p.is_prefix_of(s) <==> encode_utf8(p).is_prefix_of(encode_utf8(s)),
{
    if p.is_prefix_of(s) {
        let rest = s.subrange(p.len() as int, s.len() as int);
        assert(s =~= p + rest);
        lemma_encode_add(p, rest);
    }
    if encode_utf8(p).is_prefix_of(encode_utf8(s)) {
        lemma_prefix_of_bytes(p, s);
    }
}

/// A text occurs in another exactly when its bytes occur in the bytes of
/// the other.
pub proof fn lemma_infix_iff_bytes(needle: Seq<char>, hay: Seq<char>)
    ensures
        is_infix(needle, hay) <==> is_infix(encode_utf8(needle), encode_utf8(hay)),
{
    let bn = encode_utf8(needle);
    let bh = encode_utf8(hay);
    if is_infix(needle, hay) {
        let i = choose|i: int|
            0 <= i && i + needle.len() <= hay.len() && #[trigger] hay.subrange(
                i,
                i + needle.len(),
            ) == needle;
        let head = hay.subrange(0, i);
        let tail = hay.subrange(i + needle.len(), hay.len() as int);
        assert(hay =~= head + needle + tail);
        lemma_encode_add(head + needle, tail);
        lemma_encode_add(head, needle);
        let j = encode_utf8(head).len() as int;
        assert(bh.subrange(j, j + bn.len()) =~= bn);
    }
    if is_infix(bn, bh) {
        let j = choose|j: int|
            0 <= j && j + bn.len() <= bh.len() && #[trigger] bh.subrange(j, j + bn.len()) == bn;
        if needle.len() == 0 {
            assert(hay.subrange(0int, 0int + needle.len()) =~= needle);
        } else {
            encode_utf8_first_scalar(needle);
            encode_utf8_valid_utf8(hay);
            encode_utf8_decode_utf8(hay);
            is_char_boundary_iff_is_leading_byte(bh, j);
            valid_utf8_split(bh, j);
            decode_utf8_split(bh, j);
            let front = bh.subrange(0, j);
            let back = bh.subrange(j, bh.len() as int);
            decode_utf8_encode_utf8(back);
            lemma_prefix_of_bytes(needle, decode_utf8(back));
            let i = decode_utf8(front).len() as int;
            assert(hay.subrange(i, i + needle.len()) =~= needle);
        }
    }
}

/// Whether the characters of `prefix` open `s`.
pub fn starts_with(s: &str, prefix: &str) -> (r: bool)
    ensures
        r == prefix@.is_prefix_of(s@),
{
    proof {
        lemma_prefix_iff_bytes(prefix@, s@);
    }
    bytes_start_with(s.as_bytes(), prefix.as_bytes())
}

/// Whether `needle` occurs in `hay` as a contiguous run of bytes.
pub fn bytes_contain(hay: &[u8], needle: &[u8]) -> (r: bool)
    ensures
        r == is_infix(needle@, hay@),
{
    if needle.len() > hay.len() {
        return false;
    }
    let last = hay.len() - needle.len();
    let mut at: usize = 0;
    while at <= last
        invariant
            at <= last + 1,
            last == hay.len() - needle.len(),
            forall|k: int| 0 <= k < at ==> #[trigger] hay@.subrange(k, k + needle@.len()) != needle@,
        decreases last + 1 - at,
    {
        let rest = slice_subrange(hay, at, hay.len());
        if bytes_start_with(rest, needle) {
            assert(hay@.subrange(at as int, at + needle@.len()) =~= rest@.subrange(
                0,
                needle@.len() as int,
            ));
            return true;
        }
        at += 1;
    }
    false
}

/// Whether the characters of `needle` occur in `s` as a contiguous run.
pub fn contains(s: &str, needle: &str) -> (r: bool)
    ensures
        r == is_infix(needle@, s@),
{
    proof {
        lemma_infix_iff_bytes(needle@, s@);
    }
    bytes_contain(s.as_bytes(), needle.as_bytes())
}

/// The characters of `s` in lower case, as `str::to_lowercase` of the
/// standard library gives them.
pub uninterp spec fn lowercased(s: Seq<char>) -> Seq<char>;

/// An ASCII character in lower case: a capital letter becomes its small
/// one, every other character stays.
pub open spec fn ascii_lower(c: char) -> char {
    if 'A' <= c <= 'Z' {
        ((c as u8) + 32) as char
    } else {
        c
    }
}

/// The characters of `s`, each in lower case as far as ASCII goes.
pub open spec fn ascii_lowered(s: Seq<char>) -> Seq<char> {
    Seq::new(s.len(), |i: int| ascii_lower(s[i]))
}

/// `str::to_lowercase` of the standard library.
///
/// Taken on trust: the result depends on `s` alone. What lower case is, for
/// every character of Unicode, is not said here; it goes by the name
/// [`lowercased`]. Of text that is all ASCII it is said: Unicode gives each
/// capital letter from `A` to `Z` its small one and leaves every other
/// ASCII character as it is.
#[verifier::external_body]
pub(crate) fn to_lowercase(s: &str) -> (r: String)
    ensures
        r@ == lowercased(s@),
        is_ascii_chars(s@) ==> r@ == ascii_lowered(s@),
{
    s.to_lowercase()
}

/// The characters of `s` in lower case: by the letters of ASCII where the
/// text is all ASCII, and by Unicode else.
pub open spec fn lowered(s: Seq<char>) -> Seq<char> {
    if is_ascii_chars(s) {
        ascii_lowered(s)
    } else {
        lowercased(s)
    }
}

/// The text in lower case.
pub fn lowercase(s: &str) -> (r: String)
    ensures
        r@ == lowered(s@),
{
    to_lowercase(s)
}

/// `str::from_utf8` of the standard library: the bytes as a string, where
/// they are UTF-8.
///
/// Taken on trust: the call succeeds exactly on well-formed UTF-8, and the
/// string then holds the characters that the bytes encode.
#[verifier::external_body]
pub(crate) fn from_utf8(bytes: &[u8]) -> (r: Option<&str>)
    ensures
        r is Some == valid_utf8(bytes@),
        r matches Some(s) ==> s@ == decode_utf8(bytes@),
{
    std::str::from_utf8(bytes).ok()
}

/// What follows the last dot of `name`; all of `name` where it has no dot.
pub open spec fn last_segment(name: Seq<char>) -> Seq<char>
    decreases name.len(),
{
    if name.len() == 0 {
        name
    } else if name.last() == '.' {
        Seq::empty()
    } else {
        last_segment(name.drop_last()).push(name.last())
    }
}

proof fn lemma_last_segment_plain(name: Seq<char>)
    requires
        !name.contains('.'),
    ensures
        last_segment(name) == name,
    decreases name.len(),
{
    if name.len() > 0 {
        lemma_last_segment_plain(name.drop_last());
    }
}

proof fn lemma_last_segment_split(head: Seq<char>, tail: Seq<char>)
    requires
        !tail.contains('.'),
    ensures
        last_segment(head + seq!['.'] + tail) == tail,
    decreases tail.len(),
{
    let name = head + seq!['.'] + tail;
    if tail.len() > 0 {
        let front = tail.drop_last();
        lemma_last_segment_split(head, front);
        assert(name.drop_last() =~= head + seq!['.'] + front);
    }
}

/// The byte of the dot.
pub const DOT: u8 = 0x2E;

proof fn lemma_dot_bytes()
    ensures
        encode_utf8(seq!['.']) == seq![DOT],
{
    assert((0x2Eu32 & 0x7F) as u8 == 0x2E) by (bit_vector);
    assert(encode_utf8(seq!['.'].drop_first()) =~= seq![]);
}

/// A text that holds a dot holds the byte of the dot.
proof fn lemma_dot_in_bytes(s: Seq<char>)
    requires
        s.contains('.'),
    ensures
        encode_utf8(s).contains(DOT),
{
    let i = choose|i: int| 0 <= i < s.len() && s[i] == '.';
    let head = s.subrange(0, i);
    let tail = s.subrange(i + 1, s.len() as int);
    assert(s =~= head + seq!['.'] + tail);
    lemma_encode_add(head + seq!['.'], tail);
    lemma_encode_add(head, seq!['.']);
    lemma_dot_bytes();
    let j = encode_utf8(head).len() as int;
    assert(encode_utf8(s)[j] == DOT);
}

/// The place after a dot is the start of a character, and the text falls
/// into what stands before the dot, the dot, and what follows it.
proof fn lemma_split_at_dot(s: Seq<char>, at: int)
    requires
        0 < at <= encode_utf8(s).len(),
        encode_utf8(s)[at - 1] == DOT,
    ensures
        is_char_boundary(encode_utf8(s), at),
        s == decode_utf8(encode_utf8(s).subrange(0, at - 1)) + seq!['.'] + decode_utf8(
            encode_utf8(s).subrange(at, encode_utf8(s).len() as int),
        ),
{
    let bytes = encode_utf8(s);
    encode_utf8_valid_utf8(s);
    encode_utf8_decode_utf8(s);
    is_char_boundary_iff_is_leading_byte(bytes, at - 1);
    valid_utf8_split(bytes, at - 1);
    let back = bytes.subrange(at - 1, bytes.len() as int);
    let rest = pop_first_scalar(back);
    assert(valid_utf8(rest));
    if at < bytes.len() {
        is_char_boundary_iff_is_leading_byte(bytes, at);
    } else {
        is_char_boundary_start_end_of_seq(bytes);
    }
    decode_utf8_split(bytes, at);
    valid_utf8_split(bytes, at);
    let front = bytes.subrange(0, at);
    is_char_boundary_iff_is_leading_byte(front, at - 1);
    decode_utf8_split(front, at - 1);
    assert(front.subrange(0, at - 1) =~= bytes.subrange(0, at - 1));
    assert(front.subrange(at - 1, front.len() as int) =~= seq![DOT]);
    lemma_dot_bytes();
    encode_utf8_decode_utf8(seq!['.']);
}

/// What follows the last dot of `name`; all of `name` where it has no dot.
pub fn after_last_dot(name: &str) -> (r: &str)
    ensures
        r@ == last_segment(name@),
{
    let bytes = name.as_bytes();
    let mut at: usize = bytes.len();
    while at > 0
        invariant
            at <= bytes.len(),
            bytes@ == encode_utf8(name@),
            forall|k: int| at <= k < bytes.len() ==> bytes@[k] != DOT,
        decreases at,
    {
        if bytes[at - 1] == DOT {
            proof {
                lemma_split_at_dot(name@, at as int);
            }
            let (_, tail) = name.split_at(at);
            proof {
                let head = decode_utf8(bytes@.subrange(0, at - 1));
                let rest = bytes@.subrange(at as int, bytes@.len() as int);
                encode_utf8_decode_utf8(tail@);
                if tail@.contains('.') {
                    lemma_dot_in_bytes(tail@);
                    let k = choose|k: int| 0 <= k < rest.len() && rest[k] == DOT;
                    assert(bytes@[at + k] == DOT);
                }
                lemma_last_segment_split(head, tail@);
            }
            return tail;
        }
        at -= 1;
    }
    proof {
        if name@.contains('.') {
            lemma_dot_in_bytes(name@);
            let k = choose|k: int| 0 <= k < bytes@.len() && bytes@[k] == DOT;
            assert(bytes@[k] != DOT);
        }
        lemma_last_segment_plain(name@);
    }
    name
}

} // verus!
