//! The XML output of a node, written with quick-xml: what each writing
//! call appends, and the escaping of attribute values.

use vstd::prelude::*;
use vstd::utf8::encode_utf8;
use quick_xml::events::{BytesEnd, BytesStart, Event};
use quick_xml::Writer;

verus! {

/// How an attribute value writes one character: the five XML special
/// characters become entities, every other character stands for itself.
pub open spec fn escape_char(c: char) -> Seq<char> {
    if c == '<' {
        seq!['&', 'l', 't', ';']
    } else if c == '>' {
        seq!['&', 'g', 't', ';']
    } else if c == '&' {
        seq!['&', 'a', 'm', 'p', ';']
    } else if c == '\'' {
        seq!['&', 'a', 'p', 'o', 's', ';']
    } else if c == '"' {
        seq!['&', 'q', 'u', 'o', 't', ';']
    } else {
        seq![c]
    }
}

/// The escaped form of a whole attribute value.
pub open spec fn escape_text(s: Seq<char>) -> Seq<char>
    decreases s.len(),
{
    if s.len() == 0 {
        seq![]
    } else {
        escape_char(s[0]) + escape_text(s.drop_first())
    }
}

/// One attribute inside a tag: a space, the key, `="`, the escaped value
/// and a closing `"`.
pub open spec fn attribute_text(key: Seq<char>, value: Seq<char>) -> Seq<char> {
    seq![' '] + key + seq!['=', '"'] + escape_text(value) + seq!['"']
}

/// The attributes of a tag, in order.
pub open spec fn attributes_text(attrs: Seq<(Seq<char>, Seq<char>)>) -> Seq<char>
    decreases attrs.len(),
{
    if attrs.len() == 0 {
        seq![]
    } else {
        attribute_text(attrs[0].0, attrs[0].1) + attributes_text(attrs.drop_first())
    }
}

/// A self-closing element: `<name k="v" .../>`.
pub open spec fn empty_element_text(name: Seq<char>, attrs: Seq<(Seq<char>, Seq<char>)>) -> Seq<char> {
    seq!['<'] + name + attributes_text(attrs) + seq!['/', '>']
}

/// The opening tag of an element with content: `<name>`.
pub open spec fn start_tag_text(name: Seq<char>) -> Seq<char> {
    seq!['<'] + name + seq!['>']
}

/// The closing tag of an element with content: `</name>`.
pub open spec fn end_tag_text(name: Seq<char>) -> Seq<char> {
    seq!['<', '/'] + name + seq!['>']
}

/// The views of attribute pairs.
pub open spec fn attribute_views(attrs: Seq<(&str, &str)>) -> Seq<(Seq<char>, Seq<char>)> {
    attrs.map_values(|a: (&str, &str)| (a.0@, a.1@))
}

/// Writes the self-closing element `name` with `attributes` at the end of
/// `buf`, through quick-xml's `Writer::create_element`, `with_attributes`
/// and `write_empty`. Claimed: the bytes appended are the UTF-8 encoding of
/// `<name`, then for each attribute ` key="value"` with the value escaped by
/// quick-xml's `escape` (`<`, `>`, `&`, `'`, `"` become entities; key and
/// name are written as given), then `/>`. The writer over a `Vec<u8>`
/// cannot fail, as writing to a vector always succeeds, so its result is
/// dropped.
#[verifier::external_body]
pub(crate) fn write_empty_element(buf: &mut Vec<u8>, name: &str, attributes: &[(&str, &str)])
    ensures
        final(buf)@ == old(buf)@ + encode_utf8(empty_element_text(name@, attribute_views(attributes@))),
{
    let _ = Writer::new(buf).create_element(name).with_attributes(attributes.iter().copied()).write_empty();
}

/// Writes the opening tag `<name>` at the end of `buf` through quick-xml's
/// `Writer::write_event` with a start event, as `write_inner_content` does
/// before the content. Claimed: the bytes appended are the UTF-8 encoding
/// of `<name>`; writing to a vector cannot fail.
#[verifier::external_body]
pub(crate) fn write_start_tag(buf: &mut Vec<u8>, name: &str)
    ensures
        final(buf)@ == old(buf)@ + encode_utf8(start_tag_text(name@)),
{
    let _ = Writer::new(buf).write_event(Event::Start(BytesStart::new(name)));
}

/// Writes the closing tag `</name>` at the end of `buf` through quick-xml's
/// `Writer::write_event` with an end event, as `write_inner_content` does
/// after the content. Claimed: the bytes appended are the UTF-8 encoding of
/// `</name>`; writing to a vector cannot fail.
#[verifier::external_body]
pub(crate) fn write_end_tag(buf: &mut Vec<u8>, name: &str)
    ensures
        final(buf)@ == old(buf)@ + encode_utf8(end_tag_text(name@)),
{
    let _ = Writer::new(buf).write_event(Event::End(BytesEnd::new(name)));
}

/// The encoding of a concatenation is the concatenation of the encodings.
pub proof fn lemma_encode_utf8_concat(a: Seq<char>, b: Seq<char>)
    ensures
        encode_utf8(a + b) == encode_utf8(a) + encode_utf8(b),
    decreases a.len(),
{
    if a.len() == 0 {
        assert(a + b =~= b);
        assert(encode_utf8(a) =~= Seq::<u8>::empty());
        assert(encode_utf8(a) + encode_utf8(b) =~= encode_utf8(b));
    } else {
        assert((a + b).drop_first() =~= a.drop_first() + b);
        assert((a + b)[0] == a[0]);
        lemma_encode_utf8_concat(a.drop_first(), b);
        assert(encode_utf8(a + b) =~= encode_utf8(a) + encode_utf8(b));
    }
}

/// The attributes of a tag are written one after the other: the text of
/// a non-empty list is the first attribute's text followed by the rest.
pub proof fn lemma_attributes_cons(attrs: Seq<(Seq<char>, Seq<char>)>)
    requires
        attrs.len() > 0,
    ensures
        attributes_text(attrs) == attribute_text(attrs[0].0, attrs[0].1) + attributes_text(attrs.drop_first()),
{
}

/// The text of a list of five attributes is their five texts in order.
pub proof fn lemma_five_attributes(attrs: Seq<(Seq<char>, Seq<char>)>)
    requires
        attrs.len() == 5,
    ensures
        attributes_text(attrs) == attribute_text(attrs[0].0, attrs[0].1)
            + attribute_text(attrs[1].0, attrs[1].1) + attribute_text(attrs[2].0, attrs[2].1)
            + attribute_text(attrs[3].0, attrs[3].1) + attribute_text(attrs[4].0, attrs[4].1),
{
    let s1 = attrs.drop_first();
    let s2 = s1.drop_first();
    let s3 = s2.drop_first();
    let s4 = s3.drop_first();
    let s5 = s4.drop_first();
    assert(s1[0] == attrs[1]);
    assert(s2[0] == attrs[2]);
    assert(s3[0] == attrs[3]);
    assert(s4[0] == attrs[4]);
    assert(s5 =~= Seq::<(Seq<char>, Seq<char>)>::empty());
    lemma_attributes_cons(attrs);
    lemma_attributes_cons(s1);
    lemma_attributes_cons(s2);
    lemma_attributes_cons(s3);
    lemma_attributes_cons(s4);
    assert(attributes_text(s5) == Seq::<char>::empty());
    let t0 = attribute_text(attrs[0].0, attrs[0].1);
    let t1 = attribute_text(attrs[1].0, attrs[1].1);
    let t2 = attribute_text(attrs[2].0, attrs[2].1);
    let t3 = attribute_text(attrs[3].0, attrs[3].1);
    let t4 = attribute_text(attrs[4].0, attrs[4].1);
    assert(attributes_text(s4) =~= t4);
    assert(attributes_text(attrs) =~= t0 + t1 + t2 + t3 + t4);
}

/// The text of a list of four attributes is their four texts in order.
pub proof fn lemma_four_attributes(attrs: Seq<(Seq<char>, Seq<char>)>)
    requires
        attrs.len() == 4,
    ensures
        attributes_text(attrs) == attribute_text(attrs[0].0, attrs[0].1)
            + attribute_text(attrs[1].0, attrs[1].1) + attribute_text(attrs[2].0, attrs[2].1)
            + attribute_text(attrs[3].0, attrs[3].1),
{
    let s1 = attrs.drop_first();
    let s2 = s1.drop_first();
    let s3 = s2.drop_first();
    let s4 = s3.drop_first();
    assert(s1[0] == attrs[1]);
    assert(s2[0] == attrs[2]);
    assert(s3[0] == attrs[3]);
    assert(s4 =~= Seq::<(Seq<char>, Seq<char>)>::empty());
    lemma_attributes_cons(attrs);
    lemma_attributes_cons(s1);
    lemma_attributes_cons(s2);
    lemma_attributes_cons(s3);
    assert(attributes_text(s4) == Seq::<char>::empty());
    let t0 = attribute_text(attrs[0].0, attrs[0].1);
    let t1 = attribute_text(attrs[1].0, attrs[1].1);
    let t2 = attribute_text(attrs[2].0, attrs[2].1);
    let t3 = attribute_text(attrs[3].0, attrs[3].1);
    assert(attributes_text(s3) =~= t3);
    assert(attributes_text(attrs) =~= t0 + t1 + t2 + t3);
}

/// The text of a list of three attributes is their three texts in order.
pub proof fn lemma_three_attributes(attrs: Seq<(Seq<char>, Seq<char>)>)
    requires
        attrs.len() == 3,
    ensures
        attributes_text(attrs) == attribute_text(attrs[0].0, attrs[0].1)
            + attribute_text(attrs[1].0, attrs[1].1) + attribute_text(attrs[2].0, attrs[2].1),
{
    let s1 = attrs.drop_first();
    let s2 = s1.drop_first();
    let s3 = s2.drop_first();
    assert(s1[0] == attrs[1]);
    assert(s2[0] == attrs[2]);
    assert(s3 =~= Seq::<(Seq<char>, Seq<char>)>::empty());
    lemma_attributes_cons(attrs);
    lemma_attributes_cons(s1);
    lemma_attributes_cons(s2);
    assert(attributes_text(s3) == Seq::<char>::empty());
    let t0 = attribute_text(attrs[0].0, attrs[0].1);
    let t1 = attribute_text(attrs[1].0, attrs[1].1);
    let t2 = attribute_text(attrs[2].0, attrs[2].1);
    assert(attributes_text(s2) =~= t2);
    assert(attributes_text(attrs) =~= t0 + t1 + t2);
}

/// An attribute is written as ` key="`, the escaped value and `"`, where
/// `opening` spells ` key="`.
pub proof fn lemma_attribute_spelled(key: Seq<char>, opening: Seq<char>, value: Seq<char>)
    requires
        opening == seq![' '] + key + seq!['=', '"'],
    ensures
        attribute_text(key, value) == opening + escape_text(value) + "\""@,
{
    reveal_strlit("\"");
    assert(attribute_text(key, value) =~= opening + escape_text(value) + "\""@);
}

/// A self-closing element with five attributes, spelled out: `open` is
/// `<name`, each `o_i` is ` key_i="`, and `close` is `/>`.
#[verifier::rlimit(30)]
pub proof fn lemma_element_of_five(
    name: Seq<char>,
    open: Seq<char>,
    close: Seq<char>,
    k: (Seq<char>, Seq<char>, Seq<char>, Seq<char>, Seq<char>),
    o: (Seq<char>, Seq<char>, Seq<char>, Seq<char>, Seq<char>),
    v: (Seq<char>, Seq<char>, Seq<char>, Seq<char>, Seq<char>),
)
    requires
        open == seq!['<'] + name,
        close == seq!['/', '>'],
        o.0 == seq![' '] + k.0 + seq!['=', '"'],
        o.1 == seq![' '] + k.1 + seq!['=', '"'],
        o.2 == seq![' '] + k.2 + seq!['=', '"'],
        o.3 == seq![' '] + k.3 + seq!['=', '"'],
        o.4 == seq![' '] + k.4 + seq!['=', '"'],
    ensures
        empty_element_text(name, seq![(k.0, v.0), (k.1, v.1), (k.2, v.2), (k.3, v.3), (k.4, v.4)])
            == open + o.0 + escape_text(v.0) + "\""@ + o.1 + escape_text(v.1) + "\""@
            + o.2 + escape_text(v.2) + "\""@ + o.3 + escape_text(v.3) + "\""@
            + o.4 + escape_text(v.4) + "\""@ + close,
{
    let attrs = seq![(k.0, v.0), (k.1, v.1), (k.2, v.2), (k.3, v.3), (k.4, v.4)];
    lemma_five_attributes(attrs);
    lemma_attribute_spelled(k.0, o.0, v.0);
    lemma_attribute_spelled(k.1, o.1, v.1);
    lemma_attribute_spelled(k.2, o.2, v.2);
    lemma_attribute_spelled(k.3, o.3, v.3);
    lemma_attribute_spelled(k.4, o.4, v.4);
    assert(empty_element_text(name, attrs)
        =~= open + o.0 + escape_text(v.0) + "\""@ + o.1 + escape_text(v.1) + "\""@
        + o.2 + escape_text(v.2) + "\""@ + o.3 + escape_text(v.3) + "\""@
        + o.4 + escape_text(v.4) + "\""@ + close);
}

/// A self-closing element with four attributes, spelled out.
#[verifier::rlimit(30)]
pub proof fn lemma_element_of_four(
    name: Seq<char>,
    open: Seq<char>,
    close: Seq<char>,
    k: (Seq<char>, Seq<char>, Seq<char>, Seq<char>),
    o: (Seq<char>, Seq<char>, Seq<char>, Seq<char>),
    v: (Seq<char>, Seq<char>, Seq<char>, Seq<char>),
)
    requires
        open == seq!['<'] + name,
        close == seq!['/', '>'],
        o.0 == seq![' '] + k.0 + seq!['=', '"'],
        o.1 == seq![' '] + k.1 + seq!['=', '"'],
        o.2 == seq![' '] + k.2 + seq!['=', '"'],
        o.3 == seq![' '] + k.3 + seq!['=', '"'],
    ensures
        empty_element_text(name, seq![(k.0, v.0), (k.1, v.1), (k.2, v.2), (k.3, v.3)])
            == open + o.0 + escape_text(v.0) + "\""@ + o.1 + escape_text(v.1) + "\""@
            + o.2 + escape_text(v.2) + "\""@ + o.3 + escape_text(v.3) + "\""@ + close,
{
    let attrs = seq![(k.0, v.0), (k.1, v.1), (k.2, v.2), (k.3, v.3)];
    lemma_four_attributes(attrs);
    lemma_attribute_spelled(k.0, o.0, v.0);
    lemma_attribute_spelled(k.1, o.1, v.1);
    lemma_attribute_spelled(k.2, o.2, v.2);
    lemma_attribute_spelled(k.3, o.3, v.3);
    assert(empty_element_text(name, attrs)
        =~= open + o.0 + escape_text(v.0) + "\""@ + o.1 + escape_text(v.1) + "\""@
        + o.2 + escape_text(v.2) + "\""@ + o.3 + escape_text(v.3) + "\""@ + close);
}

/// A self-closing element with three attributes, spelled out.
#[verifier::rlimit(30)]
pub proof fn lemma_element_of_three(
    name: Seq<char>,
    open: Seq<char>,
    close: Seq<char>,
    k: (Seq<char>, Seq<char>, Seq<char>),
    o: (Seq<char>, Seq<char>, Seq<char>),
    v: (Seq<char>, Seq<char>, Seq<char>),
)
    requires
        open == seq!['<'] + name,
        close == seq!['/', '>'],
        o.0 == seq![' '] + k.0 + seq!['=', '"'],
        o.1 == seq![' '] + k.1 + seq!['=', '"'],
        o.2 == seq![' '] + k.2 + seq!['=', '"'],
    ensures
        empty_element_text(name, seq![(k.0, v.0), (k.1, v.1), (k.2, v.2)])
            == open + o.0 + escape_text(v.0) + "\""@ + o.1 + escape_text(v.1) + "\""@
            + o.2 + escape_text(v.2) + "\""@ + close,
{
    let attrs = seq![(k.0, v.0), (k.1, v.1), (k.2, v.2)];
    lemma_three_attributes(attrs);
    lemma_attribute_spelled(k.0, o.0, v.0);
    lemma_attribute_spelled(k.1, o.1, v.1);
    lemma_attribute_spelled(k.2, o.2, v.2);
    assert(empty_element_text(name, attrs)
        =~= open + o.0 + escape_text(v.0) + "\""@ + o.1 + escape_text(v.1) + "\""@
        + o.2 + escape_text(v.2) + "\""@ + close);
}

/// None of the five characters that escaping rewrites.
pub open spec fn is_plain_char(c: char) -> bool {
    c != '<' && c != '>' && c != '&' && c != '\'' && c != '"'
}

/// Escaping leaves a text without special characters unchanged.
pub proof fn lemma_escape_plain(s: Seq<char>)
    requires
        forall|i: int| 0 <= i < s.len() ==> is_plain_char(#[trigger] s[i]),
    ensures
        escape_text(s) == s,
    decreases s.len(),
{
    if s.len() > 0 {
        let t = s.drop_first();
        assert forall|i: int| 0 <= i < t.len() implies is_plain_char(#[trigger] t[i]) by {
            assert(t[i] == s[i + 1]);
        }
        lemma_escape_plain(t);
        assert(is_plain_char(s[0]));
        assert(seq![s[0]] + t =~= s);
    } else {
        assert(s =~= Seq::<char>::empty());
    }
}

/// Escaping works character by character: the escape of a concatenation
/// is the concatenation of the escapes.
pub proof fn lemma_escape_concat(a: Seq<char>, b: Seq<char>)
    ensures
        escape_text(a + b) == escape_text(a) + escape_text(b),
    decreases a.len(),
{
    if a.len() == 0 {
        assert(a + b =~= b);
        assert(escape_text(a) + escape_text(b) =~= escape_text(b));
    } else {
        assert((a + b).drop_first() =~= a.drop_first() + b);
        assert((a + b)[0] == a[0]);
        lemma_escape_concat(a.drop_first(), b);
        assert(escape_text(a + b) =~= escape_text(a) + escape_text(b));
    }
}

/// How each character is escaped: `<`, `>`, `&`, `'` and `"` become the
/// entities `&lt;`, `&gt;`, `&amp;`, `&apos;` and `&quot;`, and every other
/// character is kept as it is.
pub proof fn lemma_escape_one_char(c: char)
    ensures
        c == '<' ==> escape_text(seq![c]) == "&lt;"@,
        c == '>' ==> escape_text(seq![c]) == "&gt;"@,
        c == '&' ==> escape_text(seq![c]) == "&amp;"@,
        c == '\'' ==> escape_text(seq![c]) == "&apos;"@,
        c == '"' ==> escape_text(seq![c]) == "&quot;"@,
        is_plain_char(c) ==> escape_text(seq![c]) == seq![c],
{
    reveal_strlit("&lt;");
    reveal_strlit("&gt;");
    reveal_strlit("&amp;");
    reveal_strlit("&apos;");
    reveal_strlit("&quot;");
    assert(seq![c].drop_first() =~= Seq::<char>::empty());
    assert(seq![c][0] == c);
    assert(escape_text(Seq::<char>::empty()) == Seq::<char>::empty());
    assert(escape_text(seq![c]) =~= escape_char(c));
    assert("&lt;"@ =~= seq!['&', 'l', 't', ';']);
    assert("&gt;"@ =~= seq!['&', 'g', 't', ';']);
    assert("&amp;"@ =~= seq!['&', 'a', 'm', 'p', ';']);
    assert("&apos;"@ =~= seq!['&', 'a', 'p', 'o', 's', ';']);
    assert("&quot;"@ =~= seq!['&', 'q', 'u', 'o', 't', ';']);
}

/// An escaped attribute value holds none of the characters that could end
/// the value or open markup: no `"`, `'`, `<` or `>`.
pub proof fn lemma_escaped_value_stays_quoted(value: Seq<char>)
    ensures
        forall|i: int| 0 <= i < escape_text(value).len() ==> {
            let c = #[trigger] escape_text(value)[i];
            c != '"' && c != '\'' && c != '<' && c != '>'
        },
    decreases value.len(),
{
    if value.len() > 0 {
        lemma_escaped_value_stays_quoted(value.drop_first());
        let head = escape_char(value[0]);
        let tail = escape_text(value.drop_first());
        assert forall|i: int| 0 <= i < escape_text(value).len() implies {
            let c = #[trigger] escape_text(value)[i];
            c != '"' && c != '\'' && c != '<' && c != '>'
        } by {
            if i < head.len() {
                assert(escape_text(value)[i] == head[i]);
            } else {
                assert(escape_text(value)[i] == tail[i - head.len()]);
            }
        }
    }
}

} // verus!
