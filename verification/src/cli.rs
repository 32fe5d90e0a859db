//! The command line of a node: the `key=value;...` data format and the
//! `GET key` / `PUT key value` commands read from standard input.

use vstd::prelude::*;
use crate::text::{split_by_char, split_char, string_views, lemma_split_at_sep, lemma_split_without_sep, lemma_concat_without, lemma_split_nonempty};

verus! {

/// The pairs read from the pieces of a `;`-separated text: each piece is
/// split at `=`, its first two parts form a pair, and the first piece with
/// fewer than two parts ends the reading.
pub open spec fn pairs_of(segments: Seq<Seq<char>>) -> Seq<(Seq<char>, Seq<char>)>
    decreases segments.len(),
{
    if segments.len() == 0 {
        seq![]
    } else {
        let kv = split_char(segments[0], '=');
        if kv.len() < 2 {
            seq![]
        } else {
            seq![(kv[0], kv[1])] + pairs_of(segments.drop_first())
        }
    }
}

/// The pairs that `parse_input_data` reads from `data`.
pub open spec fn input_pairs(data: Seq<char>) -> Seq<(Seq<char>, Seq<char>)> {
    pairs_of(split_char(data, ';'))
}

/// The views of a sequence of string pairs.
pub open spec fn pair_views(v: Seq<(String, String)>) -> Seq<(Seq<char>, Seq<char>)> {
    v.map_values(|p: (String, String)| (p.0@, p.1@))
}

/// Reads `key=value` pairs separated by `;`. Reading stops at the first
/// piece without a `=`; text after a second `=` in a piece is dropped.
pub fn parse_input_data(data: String) -> (res: Vec<(String, String)>)
    ensures
        pair_views(res@) == input_pairs(data@),
{
    let mut res: Vec<(String, String)> = Vec::new();
    let tmp = split_by_char(data.as_str(), ';');
    let ghost segs = string_views(tmp@);
    let mut idx: usize = 0;
    proof {
        assert(segs.skip(0) =~= segs);
        assert(pair_views(res@) + pairs_of(segs.skip(0)) =~= input_pairs(data@));
    }
    while idx < tmp.len()
        invariant
            segs == string_views(tmp@),
            segs == split_char(data@, ';'),
            idx <= tmp.len(),
            pair_views(res@) + pairs_of(segs.skip(idx as int)) == input_pairs(data@),
        decreases tmp.len() - idx,
    {
        let key_val = split_by_char(tmp[idx].as_str(), '=');
        proof {
            let rest = segs.skip(idx as int);
            assert(rest[0] == tmp@[idx as int]@);
            assert(rest.drop_first() =~= segs.skip(idx + 1));
        }
        if key_val.len() < 2 {
            proof {
                assert(pairs_of(segs.skip(idx as int)) =~= Seq::<(Seq<char>, Seq<char>)>::empty());
                assert(pair_views(res@) + Seq::<(Seq<char>, Seq<char>)>::empty() =~= pair_views(res@));
            }
            return res;
        }
        let pair = (key_val[0].clone(), key_val[1].clone());
        proof {
            assert(pair_views(res@.push(pair)) =~= pair_views(res@) + seq![(pair.0@, pair.1@)]);
            assert(key_val@[0]@ == string_views(key_val@)[0]);
            assert(key_val@[1]@ == string_views(key_val@)[1]);
        }
        res.push(pair);
        idx = idx + 1;
    }
    proof {
        assert(segs.skip(idx as int) =~= Seq::<Seq<char>>::empty());
        assert(pair_views(res@) + Seq::<(Seq<char>, Seq<char>)>::empty() =~= pair_views(res@));
    }
    res
}


/// One pair written as `key=value`.
pub open spec fn pair_entry(p: (Seq<char>, Seq<char>)) -> Seq<char> {
    p.0 + seq!['='] + p.1
}

/// Pairs written in the data format: `key=value` entries joined by `;`.
pub open spec fn format_pairs(pairs: Seq<(Seq<char>, Seq<char>)>) -> Seq<char>
    decreases pairs.len(),
{
    if pairs.len() == 0 {
        seq![]
    } else if pairs.len() == 1 {
        pair_entry(pairs[0])
    } else {
        pair_entry(pairs[0]) + seq![';'] + format_pairs(pairs.drop_first())
    }
}

/// A key or value that the data format can carry: it holds neither
/// separator.
pub open spec fn plain_field(s: Seq<char>) -> bool {
    !s.contains(';') && !s.contains('=')
}

/// Reading back written data gives the pairs that were written, for every
/// list of pairs whose keys and values hold no separator (the empty list
/// included).
pub proof fn lemma_input_pairs_of_formatted(pairs: Seq<(Seq<char>, Seq<char>)>)
    requires
        forall|i: int| 0 <= i < pairs.len() ==> plain_field(#[trigger] pairs[i].0) && plain_field(pairs[i].1),
    ensures
        input_pairs(format_pairs(pairs)) == pairs,
    decreases pairs.len(),
{
    if pairs.len() == 0 {
        let e = Seq::<char>::empty();
        assert(split_char(e, ';') == seq![e]);
        assert(split_char(e, '=') == seq![e]);
        assert(seq![e].drop_first() =~= Seq::<Seq<char>>::empty());
        assert(input_pairs(format_pairs(pairs)) =~= pairs);
    } else {
        let k = pairs[0].0;
        let v = pairs[0].1;
        assert(plain_field(pairs[0].0));
        let e = pair_entry(pairs[0]);
        // the entry splits at `=` into its key and value
        lemma_split_at_sep(k, v, '=');
        lemma_split_without_sep(v, '=');
        assert(split_char(e, '=') =~= seq![k, v]);
        // the entry holds no `;`
        assert(!seq!['='].contains(';')) by {
            if seq!['='].contains(';') {
                let j = choose|j: int| 0 <= j < 1 && #[trigger] seq!['='][j] == ';';
            }
        }
        lemma_concat_without(k, seq!['='], ';');
        lemma_concat_without(k + seq!['='], v, ';');
        let rest = pairs.drop_first();
        if pairs.len() == 1 {
            lemma_split_without_sep(e, ';');
            assert(seq![e].drop_first() =~= Seq::<Seq<char>>::empty());
            assert(seq![e][0] == e);
            assert(pairs_of(Seq::<Seq<char>>::empty()) =~= Seq::<(Seq<char>, Seq<char>)>::empty());
            assert(pairs_of(seq![e]) =~= seq![(k, v)]);
            assert(pairs =~= seq![(k, v)]);
        } else {
            let r = format_pairs(rest);
            assert forall|i: int| 0 <= i < rest.len() implies plain_field(#[trigger] rest[i].0) && plain_field(rest[i].1) by {
                assert(rest[i] == pairs[i + 1]);
            }
            lemma_input_pairs_of_formatted(rest);
            lemma_split_at_sep(e, r, ';');
            let segs = split_char(format_pairs(pairs), ';');
            assert(segs == seq![e] + split_char(r, ';'));
            assert(segs[0] == e);
            assert(segs.drop_first() =~= split_char(r, ';'));
            assert(input_pairs(format_pairs(pairs)) == seq![(k, v)] + rest);
            assert(seq![(k, v)] + rest =~= pairs);
        }
    }
}


/// What a line read from standard input asks the node to do.
pub enum InputCommand {
    /// `GET key`: look the key up in the DHT.
    Get { key: String },
    /// `PUT key value`: store the value under the key in the DHT.
    Put { key: String, value: String },
    /// `GET` or `PUT` without the words it needs: the node reports
    /// "Expected key" and does nothing.
    ExpectedKey,
    /// Any other line: the node does nothing.
    Ignored,
}

/// The mathematical form of an [`InputCommand`].
pub enum InputCommandView {
    Get(Seq<char>),
    Put(Seq<char>, Seq<char>),
    ExpectedKey,
    Ignored,
}

impl View for InputCommand {
    type V = InputCommandView;

    open spec fn view(&self) -> InputCommandView {
        match self {
            InputCommand::Get { key } => InputCommandView::Get(key@),
            InputCommand::Put { key, value } => InputCommandView::Put(key@, value@),
            InputCommand::ExpectedKey => InputCommandView::ExpectedKey,
            InputCommand::Ignored => InputCommandView::Ignored,
        }
    }
}

/// The word that starts a lookup.
pub open spec fn get_word() -> Seq<char> {
    seq!['G', 'E', 'T']
}

/// The word that starts a store.
pub open spec fn put_word() -> Seq<char> {
    seq!['P', 'U', 'T']
}

/// The command that a line asks for. The line is split at every single
/// space; the first word selects the command and the next words are its
/// arguments, so two spaces in a row give an empty word.
pub open spec fn input_command(line: Seq<char>) -> InputCommandView {
    let args = split_char(line, ' ');
    if args[0] == get_word() {
        if args.len() >= 2 {
            InputCommandView::Get(args[1])
        } else {
            InputCommandView::ExpectedKey
        }
    } else if args[0] == put_word() {
        if args.len() >= 3 {
            InputCommandView::Put(args[1], args[2])
        } else {
            InputCommandView::ExpectedKey
        }
    } else {
        InputCommandView::Ignored
    }
}

/// Reads the command on one line of standard input.
pub fn parse_input_line(line: &str) -> (cmd: InputCommand)
    ensures
        cmd@ == input_command(line@),
{
    let args = split_by_char(line, ' ');
    proof {
        lemma_split_nonempty(line@, ' ');
        reveal_strlit("GET");
        reveal_strlit("PUT");
        assert("GET"@ =~= get_word());
        assert("PUT"@ =~= put_word());
        assert(args@[0]@ == split_char(line@, ' ')[0]);
    }
    let get = "GET".to_owned();
    let put = "PUT".to_owned();
    if args[0] == get {
        if args.len() >= 2 {
            proof { assert(args@[1]@ == split_char(line@, ' ')[1]); }
            InputCommand::Get { key: args[1].clone() }
        } else {
            InputCommand::ExpectedKey
        }
    } else if args[0] == put {
        if args.len() >= 3 {
            proof {
                assert(args@[1]@ == split_char(line@, ' ')[1]);
                assert(args@[2]@ == split_char(line@, ' ')[2]);
            }
            InputCommand::Put { key: args[1].clone(), value: args[2].clone() }
        } else {
            InputCommand::ExpectedKey
        }
    } else {
        InputCommand::Ignored
    }
}

/// A word that holds no space.
pub open spec fn is_word(s: Seq<char>) -> bool {
    !s.contains(' ')
}

proof fn lemma_command_words_have_no_space()
    ensures
        is_word(get_word()),
        is_word(put_word()),
{
    if get_word().contains(' ') {
        let j = choose|j: int| 0 <= j < 3 && #[trigger] get_word()[j] == ' ';
    }
    if put_word().contains(' ') {
        let j = choose|j: int| 0 <= j < 3 && #[trigger] put_word()[j] == ' ';
    }
}

/// `GET key` asks for the key, for every key without a space (the empty
/// key included).
pub proof fn lemma_get_line(key: Seq<char>)
    requires
        is_word(key),
    ensures
        input_command(get_word() + seq![' '] + key) == InputCommandView::Get(key),
{
    lemma_command_words_have_no_space();
    lemma_split_at_sep(get_word(), key, ' ');
    lemma_split_without_sep(key, ' ');
    let args = split_char(get_word() + seq![' '] + key, ' ');
    assert(args =~= seq![get_word(), key]);
}

/// `PUT key value` stores the value under the key, for every key and value
/// without a space.
pub proof fn lemma_put_line(key: Seq<char>, value: Seq<char>)
    requires
        is_word(key),
        is_word(value),
    ensures
        input_command(put_word() + seq![' '] + key + seq![' '] + value)
            == InputCommandView::Put(key, value),
{
    lemma_command_words_have_no_space();
    lemma_split_at_sep(key, value, ' ');
    lemma_split_without_sep(value, ' ');
    assert(put_word() + seq![' '] + key + seq![' '] + value =~= put_word() + seq![' '] + (key + seq![' '] + value));
    lemma_split_at_sep(put_word(), key + seq![' '] + value, ' ');
    let args = split_char(put_word() + seq![' '] + key + seq![' '] + value, ' ');
    assert(args =~= seq![put_word(), key, value]);
    assert(put_word() != get_word()) by {
        assert(put_word()[0] != get_word()[0]);
    }
}

/// `GET` alone, `PUT` alone and `PUT key` without a value are answered
/// with "Expected key", for every key without a space.
pub proof fn lemma_command_without_key(key: Seq<char>)
    requires
        is_word(key),
    ensures
        input_command(get_word()) == InputCommandView::ExpectedKey,
        input_command(put_word()) == InputCommandView::ExpectedKey,
        input_command(put_word() + seq![' '] + key) == InputCommandView::ExpectedKey,
{
    lemma_command_words_have_no_space();
    lemma_split_without_sep(get_word(), ' ');
    lemma_split_without_sep(put_word(), ' ');
    assert(put_word() != get_word()) by {
        assert(put_word()[0] != get_word()[0]);
    }
    lemma_split_at_sep(put_word(), key, ' ');
    lemma_split_without_sep(key, ' ');
    assert(split_char(put_word() + seq![' '] + key, ' ') =~= seq![put_word(), key]);
}

/// Reading stops at the first piece without `=`: whatever follows it is
/// not read, for every list of well-formed pairs written before it.
pub proof fn lemma_reading_stops_at_piece_without_equals(
    pairs: Seq<(Seq<char>, Seq<char>)>,
    bad: Seq<char>,
    rest: Seq<char>,
)
    requires
        pairs.len() > 0,
        forall|i: int| 0 <= i < pairs.len() ==> plain_field(#[trigger] pairs[i].0) && plain_field(pairs[i].1),
        plain_field(bad),
    ensures
        input_pairs(format_pairs(pairs) + seq![';'] + bad + seq![';'] + rest) == pairs,
    decreases pairs.len(),
{
    let k = pairs[0].0;
    let v = pairs[0].1;
    assert(plain_field(pairs[0].0));
    let e = pair_entry(pairs[0]);
    lemma_split_at_sep(k, v, '=');
    lemma_split_without_sep(v, '=');
    assert(split_char(e, '=') =~= seq![k, v]);
    assert(!seq!['='].contains(';')) by {
        if seq!['='].contains(';') {
            let j = choose|j: int| 0 <= j < 1 && #[trigger] seq!['='][j] == ';';
        }
    }
    lemma_concat_without(k, seq!['='], ';');
    lemma_concat_without(k + seq!['='], v, ';');
    let tail = bad + seq![';'] + rest;
    let whole = format_pairs(pairs) + seq![';'] + bad + seq![';'] + rest;
    if pairs.len() == 1 {
        assert(whole =~= e + seq![';'] + tail);
        lemma_split_at_sep(e, tail, ';');
        lemma_split_at_sep(bad, rest, ';');
        let segs = split_char(whole, ';');
        assert(segs == seq![e] + (seq![bad] + split_char(rest, ';')));
        lemma_split_without_sep(bad, '=');
        assert(segs[0] == e);
        assert(segs.drop_first() =~= seq![bad] + split_char(rest, ';'));
        assert(segs.drop_first()[0] == bad);
        assert(pairs_of(segs.drop_first()) =~= Seq::<(Seq<char>, Seq<char>)>::empty());
        assert(pairs =~= seq![(k, v)]);
        assert(input_pairs(whole) =~= pairs);
    } else {
        let r = pairs.drop_first();
        assert forall|i: int| 0 <= i < r.len() implies plain_field(#[trigger] r[i].0) && plain_field(r[i].1) by {
            assert(r[i] == pairs[i + 1]);
        }
        lemma_reading_stops_at_piece_without_equals(r, bad, rest);
        let rw = format_pairs(r) + seq![';'] + bad + seq![';'] + rest;
        assert(whole =~= e + seq![';'] + rw);
        lemma_split_at_sep(e, rw, ';');
        let segs = split_char(whole, ';');
        assert(segs[0] == e);
        assert(segs.drop_first() =~= split_char(rw, ';'));
        assert(input_pairs(whole) == seq![(k, v)] + r);
        assert(seq![(k, v)] + r =~= pairs);
    }
}

/// A piece with more than one `=` gives the text before the first `=` as
/// key and the text between the first two as value; the rest is dropped.
pub proof fn lemma_second_equals_drops_rest(key: Seq<char>, value: Seq<char>, extra: Seq<char>)
    requires
        plain_field(key),
        plain_field(value),
        !extra.contains(';'),
    ensures
        input_pairs(key + seq!['='] + value + seq!['='] + extra) == seq![(key, value)],
{
    let e = key + seq!['='] + value + seq!['='] + extra;
    assert(!seq!['='].contains(';')) by {
        if seq!['='].contains(';') {
            let j = choose|j: int| 0 <= j < 1 && #[trigger] seq!['='][j] == ';';
        }
    }
    lemma_concat_without(key, seq!['='], ';');
    lemma_concat_without(key + seq!['='], value, ';');
    lemma_concat_without(key + seq!['='] + value, seq!['='], ';');
    lemma_concat_without(key + seq!['='] + value + seq!['='], extra, ';');
    lemma_split_without_sep(e, ';');
    assert(e =~= key + seq!['='] + (value + seq!['='] + extra));
    lemma_split_at_sep(key, value + seq!['='] + extra, '=');
    lemma_split_at_sep(value, extra, '=');
    lemma_split_nonempty(extra, '=');
    let kv = split_char(e, '=');
    assert(kv[0] == key);
    assert(kv[1] == value);
    assert(kv.len() >= 2);
    assert(seq![e][0] == e);
    assert(seq![e].drop_first() =~= Seq::<Seq<char>>::empty());
    assert(pairs_of(Seq::<Seq<char>>::empty()) =~= Seq::<(Seq<char>, Seq<char>)>::empty());
    assert(pairs_of(seq![e]) =~= seq![(key, value)]);
}

/// A line whose first word is neither `GET` nor `PUT` asks for nothing,
/// whatever follows it.
pub proof fn lemma_other_lines_ignored(word: Seq<char>, rest: Seq<char>)
    requires
        is_word(word),
        word != get_word(),
        word != put_word(),
    ensures
        input_command(word) == InputCommandView::Ignored,
        input_command(word + seq![' '] + rest) == InputCommandView::Ignored,
{
    lemma_split_without_sep(word, ' ');
    lemma_split_at_sep(word, rest, ' ');
    assert(split_char(word, ' ')[0] == word);
    assert(split_char(word + seq![' '] + rest, ' ')[0] == word);
}

} // verus!
