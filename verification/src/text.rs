//! Character-level text helpers shared by the parsers and the serializers.

use vstd::prelude::*;
use vstd::utf8::{valid_utf8, decode_utf8};

verus! {

/// Copies the characters of `s` into a vector.
pub fn chars_of(s: &str) -> (v: Vec<char>)
    ensures
        v@ == s@,
{
    let mut v: Vec<char> = Vec::new();
    for c in it: s.chars()
        invariant
            v@ == it.seq().take(it.index() as int),
            it.seq() == s@,
    {
        v.push(c);
    }
    v
}


/// The pieces of `s` between the occurrences of `sep`, in order, as
/// `str::split` with a `char` pattern yields them. There is always at least
/// one piece: the empty text splits into one empty piece.
pub open spec fn split_char(s: Seq<char>, sep: char) -> Seq<Seq<char>>
    decreases s.len(),
{
    if s.len() == 0 {
        seq![Seq::<char>::empty()]
    } else {
        let rest = split_char(s.drop_first(), sep);
        if s[0] == sep {
            seq![Seq::<char>::empty()] + rest
        } else {
            rest.update(0, seq![s[0]] + rest[0])
        }
    }
}

/// The views of a sequence of strings.
pub open spec fn string_views(v: Seq<String>) -> Seq<Seq<char>> {
    v.map_values(|p: String| p@)
}

/// Splitting never yields an empty list of pieces.
pub proof fn lemma_split_nonempty(s: Seq<char>, sep: char)
    ensures
        split_char(s, sep).len() >= 1,
    decreases s.len(),
{
    if s.len() > 0 {
        lemma_split_nonempty(s.drop_first(), sep);
    }
}

/// A text without the separator is a single piece.
pub proof fn lemma_split_without_sep(s: Seq<char>, sep: char)
    requires
        !s.contains(sep),
    ensures
        split_char(s, sep) == seq![s],
    decreases s.len(),
{
    if s.len() > 0 {
        let t = s.drop_first();
        assert(!t.contains(sep)) by {
            if t.contains(sep) {
                let k = choose|k: int| 0 <= k < t.len() && t[k] == sep;
                assert(s[k + 1] == sep);
            }
        }
        assert(s[0] != sep) by {
            assert(s.contains(s[0])) by { assert(s[0] == s[0]); }
        }
        lemma_split_without_sep(t, sep);
        assert(seq![s[0]] + t =~= s);
        assert(split_char(s, sep) =~= seq![s]);
    } else {
        assert(s =~= Seq::<char>::empty());
    }
}

/// A first piece free of the separator, then the separator, then the rest.
pub proof fn lemma_split_at_sep(a: Seq<char>, b: Seq<char>, sep: char)
    requires
        !a.contains(sep),
    ensures
        split_char(a + seq![sep] + b, sep) == seq![a] + split_char(b, sep),
    decreases a.len(),
{
    let s = a + seq![sep] + b;
    if a.len() == 0 {
        assert(s.drop_first() =~= b);
        assert(a =~= Seq::<char>::empty());
    } else {
        let a1 = a.drop_first();
        assert(!a1.contains(sep)) by {
            if a1.contains(sep) {
                let k = choose|k: int| 0 <= k < a1.len() && a1[k] == sep;
                assert(a[k + 1] == sep);
            }
        }
        assert(a[0] != sep) by {
            assert(a.contains(a[0])) by { assert(a[0] == a[0]); }
        }
        assert(s.drop_first() =~= a1 + seq![sep] + b);
        lemma_split_at_sep(a1, b, sep);
        assert(s[0] == a[0]);
        assert(seq![a[0]] + a1 =~= a);
        assert(split_char(s, sep) =~= seq![a] + split_char(b, sep));
    }
}

/// A character absent from two texts is absent from their concatenation.
pub proof fn lemma_concat_without(a: Seq<char>, b: Seq<char>, c: char)
    requires
        !a.contains(c),
        !b.contains(c),
    ensures
        !(a + b).contains(c),
{
    if (a + b).contains(c) {
        let k = choose|k: int| 0 <= k < (a + b).len() && #[trigger] (a + b)[k] == c;
        if k < a.len() {
            assert(a[k] == c);
        } else {
            assert(b[k - a.len()] == c);
        }
    }
}

/// Splits `s` at every occurrence of `sep`.
pub fn split_by_char(s: &str, sep: char) -> (pieces: Vec<String>)
    ensures
        string_views(pieces@) == split_char(s@, sep),
{
    let chars = chars_of(s);
    let n = chars.len();
    let mut pieces: Vec<String> = Vec::new();
    let mut start: usize = 0;
    let mut i: usize = 0;
    proof {
        assert(s@.subrange(0, n as int) =~= s@);
        assert(s@.subrange(0, 0) =~= Seq::<char>::empty());
        assert(string_views(pieces@) + split_char(s@, sep) =~= split_char(s@, sep));
    }
    while i < n
        invariant
            chars@ == s@,
            n == chars@.len(),
            start <= i <= n,
            !s@.subrange(start as int, i as int).contains(sep),
            string_views(pieces@) + split_char(s@.subrange(start as int, n as int), sep)
                == split_char(s@, sep),
        decreases n - i,
    {
        if chars[i] == sep {
            let piece = s.substring_char(start, i).to_owned();
            proof {
                let a = s@.subrange(start as int, i as int);
                let b = s@.subrange(i + 1, n as int);
                assert(s@.subrange(start as int, n as int) =~= a + seq![sep] + b);
                lemma_split_at_sep(a, b, sep);
                assert(string_views(pieces@.push(piece)) =~= string_views(pieces@) + seq![a]);
            }
            pieces.push(piece);
            start = i + 1;
            proof {
                assert(s@.subrange(start as int, start as int) =~= Seq::<char>::empty());
            }
        } else {
            proof {
                let a = s@.subrange(start as int, i as int);
                assert(s@.subrange(start as int, i + 1) =~= a.push(chars@[i as int]));
                let a2 = s@.subrange(start as int, i + 1);
                if a2.contains(sep) {
                    let k = choose|k: int| 0 <= k < a2.len() && #[trigger] a2[k] == sep;
                    if k < i - start {
                        assert(a[k] == sep);
                    }
                }
            }
        }
        i = i + 1;
    }
    let last = s.substring_char(start, n).to_owned();
    proof {
        let a = s@.subrange(start as int, n as int);
        lemma_split_without_sep(a, sep);
        assert(string_views(pieces@.push(last)) =~= string_views(pieces@) + seq![a]);
        assert(string_views(pieces@) + split_char(a, sep) =~= string_views(pieces@.push(last)));
    }
    pieces.push(last);
    pieces
}


/// `needle` occurs in `hay` as a run of consecutive characters.
pub open spec fn text_contains(hay: Seq<char>, needle: Seq<char>) -> bool {
    exists|i: int| 0 <= i && i + needle.len() <= hay.len() && #[trigger] hay.subrange(i, i + needle.len()) == needle
}

/// A text occurs in itself.
pub proof fn lemma_contains_self(t: Seq<char>)
    ensures
        text_contains(t, t),
{
    assert(t.subrange(0int, 0int + t.len()) =~= t);
}

/// A text that occurs in `b` occurs in any text that holds `b` between a
/// prefix and a suffix.
pub proof fn lemma_contains_within(a: Seq<char>, b: Seq<char>, c: Seq<char>, x: Seq<char>)
    requires
        text_contains(b, x),
    ensures
        text_contains(a + b + c, x),
{
    let i = choose|i: int| 0 <= i && i + x.len() <= b.len() && #[trigger] b.subrange(i, i + x.len()) == x;
    let t = a + b + c;
    let j = a.len() + i;
    assert(t.subrange(j, j + x.len()) =~= b.subrange(i, i + x.len()));
}

/// What occurs in a text is no longer than it, and each of its characters
/// is a character of the text; the empty text occurs everywhere.
pub proof fn lemma_contains_needs_the_characters(hay: Seq<char>, needle: Seq<char>)
    ensures
        text_contains(hay, needle) ==> needle.len() <= hay.len(),
        text_contains(hay, needle) ==> forall|i: int| 0 <= i < needle.len() ==> hay.contains(#[trigger] needle[i]),
        text_contains(hay, Seq::<char>::empty()),
{
    if text_contains(hay, needle) {
        let j = choose|j: int| 0 <= j && j + needle.len() <= hay.len() && #[trigger] hay.subrange(j, j + needle.len()) == needle;
        assert forall|i: int| 0 <= i < needle.len() implies hay.contains(#[trigger] needle[i]) by {
            assert(hay[j + i] == needle[i]);
        }
    }
    assert(hay.subrange(0int, 0int + Seq::<char>::empty().len()) =~= Seq::<char>::empty());
}

/// Occurrence is transitive: what occurs in a part occurs in the whole.
pub proof fn lemma_contains_trans(a: Seq<char>, b: Seq<char>, c: Seq<char>)
    requires
        text_contains(a, b),
        text_contains(b, c),
    ensures
        text_contains(a, c),
{
    let j = choose|j: int| 0 <= j && j + b.len() <= a.len() && #[trigger] a.subrange(j, j + b.len()) == b;
    let k = choose|k: int| 0 <= k && k + c.len() <= b.len() && #[trigger] b.subrange(k, k + c.len()) == c;
    assert(a.subrange(j + k, j + k + c.len()) =~= b.subrange(k, k + c.len()));
}

/// Whether `needle` occurs in `hay` at position `at`.
fn occurs_at(hay: &Vec<char>, needle: &Vec<char>, at: usize) -> (b: bool)
    requires
        at + needle.len() <= hay.len(),
    ensures
        b == (hay@.subrange(at as int, at + needle.len()) == needle@),
{
    let mut k: usize = 0;
    while k < needle.len()
        invariant
            at + needle.len() <= hay.len(),
            k <= needle.len(),
            forall|j: int| 0 <= j < k ==> hay@[at + j] == needle@[j],
        decreases needle.len() - k,
    {
        if hay[at + k] != needle[k] {
            proof {
                let sub = hay@.subrange(at as int, at + needle.len());
                assert(sub[k as int] != needle@[k as int]);
            }
            return false;
        }
        k = k + 1;
    }
    proof {
        assert(hay@.subrange(at as int, at + needle.len()) =~= needle@);
    }
    true
}

/// Whether `needle` occurs in `hay`, as `str::contains` answers it.
pub fn contains_text(hay: &str, needle: &str) -> (b: bool)
    ensures
        b == text_contains(hay@, needle@),
{
    let h = chars_of(hay);
    let n = chars_of(needle);
    if n.len() > h.len() {
        return false;
    }
    if n.len() == 0 {
        proof {
            assert(hay@.subrange(0int, 0int + needle@.len()) =~= needle@);
        }
        return true;
    }
    let last = h.len() - n.len();
    let mut i: usize = 0;
    while i <= last
        invariant
            h@ == hay@,
            n@ == needle@,
            last == h.len() - n.len(),
            0 < n.len() <= h.len(),
            i <= last + 1,
            forall|j: int| 0 <= j < i ==> #[trigger] hay@.subrange(j, j + needle@.len()) != needle@,
        decreases last + 1 - i,
    {
        if occurs_at(&h, &n, i) {
            return true;
        }
        i = i + 1;
    }
    false
}


/// Decodes UTF-8 bytes into a string with std's `String::from_utf8`.
/// Claimed, as std documents it: the call succeeds exactly when the bytes
/// are valid UTF-8, and the string then holds the characters they encode.
/// The error value, which only locates the fault, is dropped.
#[verifier::external_body]
pub(crate) fn string_from_utf8(bytes: Vec<u8>) -> (s: Option<String>)
    ensures
        s is Some <==> valid_utf8(bytes@),
        s matches Some(t) ==> t@ == decode_utf8(bytes@),
{
    String::from_utf8(bytes).ok()
}

} // verus!
