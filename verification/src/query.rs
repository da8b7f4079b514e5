//! Query strings: `key=value` pairs joined by `&`, a key possibly many times.

use crate::percent::{
    decode_component, decoded_component, decoding_undoes_encoding, percent_encodes,
};
use crate::text::{
    chars_of, find_from, first_index_of, first_index_of_is, split, split_at_first_separator,
    str_eq,
};
use vstd::prelude::*;
use vstd::string::StrSliceExecFns;
use vstd::utf8::encode_utf8;

verus! {

/// One key of a query string with the values it was given, in the order in
/// which they were given.
#[derive(Debug, PartialEq, Eq)]
pub struct Param {
    pub key: String,
    pub values: Vec<String>,
}

impl View for Param {
    type V = (Seq<char>, Seq<Seq<char>>);

    open spec fn view(&self) -> Self::V {
        (self.key@, self.values.deep_view())
    }
}

/// The model of a parameter list: keys with their values, in the order in
/// which the keys first occurred.
pub type ParamsView = Seq<(Seq<char>, Seq<Seq<char>>)>;

/// The parameters of a request.
///
/// A key occurs once, however often the query string repeated it; the
/// repetitions are the several values of that key. Keys stand in the order of
/// their first occurrence.
#[derive(Debug, PartialEq, Eq)]
pub struct QueryParams {
    entries: Vec<Param>,
}

impl View for QueryParams {
    type V = ParamsView;

    closed spec fn view(&self) -> ParamsView {
        Seq::new(self.entries@.len(), |i: int| self.entries@[i]@)
    }
}

/// The index of the entry for `key`, or the number of entries where none has
/// that key.
pub open spec fn key_position(entries: ParamsView, key: Seq<char>) -> int
    decreases entries.len(),
{
    if entries.len() == 0 || entries[0].0 == key {
        0
    } else {
        1 + key_position(entries.skip(1), key)
    }
}

/// No key has two entries.
pub open spec fn distinct_keys(entries: ParamsView) -> bool {
    forall|i: int, j: int| 0 <= i < j < entries.len() ==> entries[i].0 != entries[j].0
}

/// The values that stand under `key`: none where the key has no entry.
pub open spec fn values_under(entries: ParamsView, key: Seq<char>) -> Seq<Seq<char>> {
    let at = key_position(entries, key);
    if at < entries.len() {
        entries[at].1
    } else {
        Seq::empty()
    }
}

/// The entries after one more `key=value` pair: the value joins the values
/// of its key, or the key gets an entry behind the others.
pub open spec fn with_value(entries: ParamsView, key: Seq<char>, value: Seq<char>) -> ParamsView {
    let at = key_position(entries, key);
    if at < entries.len() {
        entries.update(at, (key, entries[at].1.push(value)))
    } else {
        entries.push((key, seq![value]))
    }
}

/// The entries that a sequence of pairs makes, taken in order.
pub open spec fn grouped(pairs: Seq<(Seq<char>, Seq<char>)>) -> ParamsView
    decreases pairs.len(),
{
    if pairs.len() == 0 {
        Seq::empty()
    } else {
        with_value(grouped(pairs.drop_last()), pairs.last().0, pairs.last().1)
    }
}

/// The values that `pairs` gives to `key`, each occurrence in input order.
pub open spec fn occurrences(pairs: Seq<(Seq<char>, Seq<char>)>, key: Seq<char>) -> Seq<Seq<char>>
    decreases pairs.len(),
{
    if pairs.len() == 0 {
        Seq::empty()
    } else {
        let earlier = occurrences(pairs.drop_last(), key);
        if pairs.last().0 == key {
            earlier.push(pairs.last().1)
        } else {
            earlier
        }
    }
}

/// The raw key and value of one `key=value` piece: it is cut at its first
/// `=`, and a piece without one is a key with an empty value.
pub open spec fn split_pair(piece: Seq<char>) -> (Seq<char>, Seq<char>) {
    let at = first_index_of(piece, '=');
    if at < piece.len() {
        (piece.take(at), piece.skip(at + 1))
    } else {
        (piece, Seq::empty())
    }
}

/// The key and value of one piece, percent-decoded.
pub open spec fn decoded_pair(piece: Seq<char>) -> (Seq<char>, Seq<char>) {
    (decoded_component(split_pair(piece).0), decoded_component(split_pair(piece).1))
}

/// The pairs that a list of pieces holds: empty pieces hold none.
pub open spec fn pairs_of(pieces: Seq<Seq<char>>) -> Seq<(Seq<char>, Seq<char>)>
    decreases pieces.len(),
{
    if pieces.len() == 0 {
        Seq::empty()
    } else if pieces[0].len() == 0 {
        pairs_of(pieces.skip(1))
    } else {
        seq![decoded_pair(pieces[0])] + pairs_of(pieces.skip(1))
    }
}

/// The decoded pairs of a query string, in the order in which it has them.
pub open spec fn query_pairs(query: Seq<char>) -> Seq<(Seq<char>, Seq<char>)> {
    pairs_of(split(query, '&'))
}

/// What `key_position` finds: an index within the entries or just behind
/// them, no entry before it has the key, and the entry at it has.
pub proof fn key_position_finds_first(entries: ParamsView, key: Seq<char>)
    ensures
        0 <= key_position(entries, key) <= entries.len(),
        forall|i: int| 0 <= i < key_position(entries, key) ==> (#[trigger] entries[i]).0 != key,
        key_position(entries, key) < entries.len() ==> entries[key_position(entries, key)].0
            == key,
    decreases entries.len(),
{
    if entries.len() == 0 || entries[0].0 == key {
    } else {
        let tail = entries.skip(1);
        key_position_finds_first(tail, key);
        assert forall|i: int| 0 <= i < key_position(entries, key) implies (#[trigger] entries[i]).0
            != key by {
            if i > 0 {
                assert(tail[i - 1] == entries[i]);
            }
        }
    }
}

/// Where `index` is the first entry with `key`, or the number of entries
/// where none has it, `key_position` is `index`.
pub proof fn key_position_is(entries: ParamsView, key: Seq<char>, index: int)
    requires
        0 <= index <= entries.len(),
        forall|i: int| 0 <= i < index ==> (#[trigger] entries[i]).0 != key,
        index < entries.len() ==> entries[index].0 == key,
    ensures
        key_position(entries, key) == index,
    decreases index,
{
    if index > 0 {
        assert(entries[0].0 != key);
        let tail = entries.skip(1);
        assert forall|i: int| 0 <= i < index - 1 implies (#[trigger] tail[i]).0 != key by {
            assert(tail[i] == entries[i + 1]);
        }
        key_position_is(tail, key, index - 1);
    }
}

/// One more pair changes the values of its own key only, by one value at the
/// end, and leaves no key with two entries.
pub proof fn with_value_adds_one(
    entries: ParamsView,
    key: Seq<char>,
    value: Seq<char>,
    other: Seq<char>,
)
    requires
        distinct_keys(entries),
    ensures
        distinct_keys(with_value(entries, key, value)),
        values_under(with_value(entries, key, value), key) == values_under(entries, key).push(
            value,
        ),
        other != key ==> values_under(with_value(entries, key, value), other) == values_under(
            entries,
            other,
        ),
        key_position(with_value(entries, key, value), key) < with_value(entries, key, value).len(),
        other != key ==> (key_position(with_value(entries, key, value), other) < with_value(
            entries,
            key,
            value,
        ).len() <==> key_position(entries, other) < entries.len()),
{
    let after = with_value(entries, key, value);
    let at = key_position(entries, key);
    key_position_finds_first(entries, key);
    key_position_finds_first(entries, other);
    key_position_is(after, key, at);
    if other != key {
        let at_other = key_position(entries, other);
        key_position_is(after, other, if at_other < entries.len() {
            at_other
        } else {
            after.len() as int
        });
    }
}

/// Every key of a query string keeps each of its values, in input order, and
/// has one entry however often it occurs; a key that does not occur has none.
pub proof fn grouping_keeps_occurrences(pairs: Seq<(Seq<char>, Seq<char>)>, key: Seq<char>)
    ensures
        distinct_keys(grouped(pairs)),
        values_under(grouped(pairs), key) == occurrences(pairs, key),
        key_position(grouped(pairs), key) < grouped(pairs).len() <==> occurrences(pairs, key).len()
            > 0,
    decreases pairs.len(),
{
    if pairs.len() > 0 {
        let earlier = pairs.drop_last();
        grouping_keeps_occurrences(earlier, key);
        grouping_keeps_occurrences(earlier, pairs.last().0);
        with_value_adds_one(grouped(earlier), pairs.last().0, pairs.last().1, key);
    }
}

impl QueryParams {
    #[verifier::type_invariant]
    closed spec fn keys_are_distinct(&self) -> bool {
        distinct_keys(self@)
    }

    /// No parameters.
    pub fn new() -> (params: QueryParams)
        ensures
            params@ == ParamsView::empty(),
    {
        let params = QueryParams { entries: Vec::new() };
        assert(params@ =~= ParamsView::empty());
        params
    }

    /// The number of keys.
    pub fn len(&self) -> (count: usize)
        ensures
            count == self@.len(),
    {
        self.entries.len()
    }

    /// The entries, one for each key, in the order in which the keys first
    /// occurred.
    pub fn entries(&self) -> (entries: &Vec<Param>)
        ensures
            entries@.len() == self@.len(),
            forall|i: int| 0 <= i < entries@.len() ==> (#[trigger] entries@[i])@ == self@[i],
            distinct_keys(self@),
    {
        proof {
            use_type_invariant(self);
        }
        &self.entries
    }

    fn position(&self, key: &str) -> (index: usize)
        ensures
            index == key_position(self@, key@),
            index <= self@.len(),
    {
        let mut index: usize = 0;
        while index < self.entries.len() && !str_eq(self.entries[index].key.as_str(), key)
            invariant
                index <= self.entries@.len(),
                forall|i: int| 0 <= i < index ==> (#[trigger] self@[i]).0 != key@,
            decreases self.entries@.len() - index,
        {
            index += 1;
        }
        proof {
            key_position_is(self@, key@, index as int);
        }
        index
    }

    /// The values of `key`, if the key occurs.
    pub fn get(&self, key: &str) -> (values: Option<&Vec<String>>)
        ensures
            match values {
                Some(values) => key_position(self@, key@) < self@.len() && values.deep_view()
                    == values_under(self@, key@),
                None => key_position(self@, key@) == self@.len(),
            },
    {
        let index = self.position(key);
        if index < self.entries.len() {
            Some(&self.entries[index].values)
        } else {
            None
        }
    }

    /// Takes in one more `key=value` pair.
    pub fn append(&mut self, key: String, value: String)
        ensures
            final(self)@ == with_value(old(self)@, key@, value@),
    {
        proof {
            use_type_invariant(&*self);
            with_value_adds_one(self@, key@, value@, key@);
        }
        let index = self.position(key.as_str());
        let mut taken = QueryParams::new();
        core::mem::swap(self, &mut taken);
        let mut entries = taken.entries;
        let ghost before = old(self)@;
        proof {
            key_position_finds_first(before, key@);
            assert(entries@.len() == before.len());
            assert forall|i: int| 0 <= i < entries@.len() implies (#[trigger] entries@[i])@
                == before[i] by {}
        }
        if index < entries.len() {
            let ghost earlier = entries@;
            let mut entry = entries.remove(index);
            let ghost values_before = entry.values.deep_view();
            entry.values.push(value);
            assert(entry.values.deep_view() =~= values_before.push(value@));
            assert(entry@ == (key@, before[index as int].1.push(value@)));
            entries.insert(index, entry);
            assert forall|i: int| 0 <= i < entries@.len() implies (#[trigger] entries@[i])@
                == with_value(before, key@, value@)[i] by {
                if i != index {
                    assert(entries@[i] == earlier[i]);
                }
            }
        } else {
            let ghost earlier = entries@;
            let mut values: Vec<String> = Vec::new();
            values.push(value);
            assert(values.deep_view() =~= seq![value@]);
            entries.push(Param { key, values });
            assert forall|i: int| 0 <= i < entries@.len() implies (#[trigger] entries@[i])@
                == with_value(before, key@, value@)[i] by {
                if i < earlier.len() {
                    assert(entries@[i] == earlier[i]);
                }
            }
        }
        let ghost after = Seq::new(entries@.len(), |i: int| entries@[i]@);
        assert(after =~= with_value(before, key@, value@));
        *self = QueryParams { entries };
    }
}

/// The text `key=value`.
pub open spec fn pair_text(key: Seq<char>, value: Seq<char>) -> Seq<char> {
    key + seq!['='] + value
}

/// The query string that holds the given keys and values as they stand,
/// joined by `&`.
pub open spec fn query_text(pairs: Seq<(Seq<char>, Seq<char>)>) -> Seq<char>
    decreases pairs.len(),
{
    if pairs.len() == 0 {
        Seq::empty()
    } else if pairs.len() == 1 {
        pair_text(pairs[0].0, pairs[0].1)
    } else {
        pair_text(pairs[0].0, pairs[0].1) + seq!['&'] + query_text(pairs.skip(1))
    }
}

/// Whether `encoded` is fit to stand in a query string for `original`: key
/// and value are percent-encoded, in any valid way, and what would cut the
/// query string in the wrong place is escaped: `&` in both, `=` in the key.
pub open spec fn encodes_pair(
    encoded: (Seq<char>, Seq<char>),
    original: (Seq<char>, Seq<char>),
) -> bool {
    &&& percent_encodes(encode_utf8(encoded.0), encode_utf8(original.0))
    &&& percent_encodes(encode_utf8(encoded.1), encode_utf8(original.1))
    &&& !encoded.0.contains('&')
    &&& !encoded.0.contains('=')
    &&& !encoded.1.contains('&')
}

/// An encoded pair is read back as the key and the value that it was made
/// from.
pub proof fn encoded_pair_round_trip(
    encoded: (Seq<char>, Seq<char>),
    original: (Seq<char>, Seq<char>),
)
    requires
        encodes_pair(encoded, original),
    ensures
        decoded_pair(pair_text(encoded.0, encoded.1)) == original,
        pair_text(encoded.0, encoded.1).len() > 0,
        !pair_text(encoded.0, encoded.1).contains('&'),
{
    let text = pair_text(encoded.0, encoded.1);
    let at = encoded.0.len() as int;
    assert(text[at] == '=');
    assert forall|i: int| 0 <= i < at implies text[i] != '=' by {
        assert(text[i] == encoded.0[i]);
        assert(encoded.0.contains(text[i]));
    }
    first_index_of_is(text, '=', at);
    assert(text.take(at) =~= encoded.0);
    assert(text.skip(at + 1) =~= encoded.1);
    decoding_undoes_encoding(encoded.0, original.0);
    decoding_undoes_encoding(encoded.1, original.1);
    assert forall|i: int| 0 <= i < text.len() implies text[i] != '&' by {
        if i < at {
            assert(encoded.0.contains(encoded.0[i]));
        } else if i > at {
            assert(text[i] == encoded.1[i - at - 1]);
            assert(encoded.1.contains(encoded.1[i - at - 1]));
        }
    }
}

/// The pairs of a list of pieces are those of its first piece, if it is not
/// empty, and then those of the others.
proof fn pairs_of_first_piece(piece: Seq<char>, others: Seq<Seq<char>>)
    ensures
        pairs_of(seq![piece] + others) == if piece.len() == 0 {
            pairs_of(others)
        } else {
            seq![decoded_pair(piece)] + pairs_of(others)
        },
{
    assert((seq![piece] + others).skip(1) =~= others);
}

/// A query string round-trips: where every key and value was percent-encoded
/// before the pairs were joined, the pairs that are read out of the query
/// string are the ones that went in, in their order and with every
/// repetition.
pub proof fn query_string_round_trip(
    encoded: Seq<(Seq<char>, Seq<char>)>,
    originals: Seq<(Seq<char>, Seq<char>)>,
)
    requires
        encoded.len() == originals.len(),
        forall|i: int| 0 <= i < encoded.len() ==> encodes_pair(#[trigger] encoded[i], originals[i]),
    ensures
        query_pairs(query_text(encoded)) == originals,
    decreases encoded.len(),
{
    let text = query_text(encoded);
    let none = Seq::<Seq<char>>::empty();
    assert(pairs_of(none) =~= Seq::empty());
    if encoded.len() == 0 {
        assert(split(text, '&') =~= seq![text] + none);
        pairs_of_first_piece(text, none);
        assert(originals =~= Seq::empty());
    } else {
        let first = pair_text(encoded[0].0, encoded[0].1);
        assert(encodes_pair(encoded[0], originals[0]));
        encoded_pair_round_trip(encoded[0], originals[0]);
        assert forall|i: int| 0 <= i < first.len() implies first[i] != '&' by {
            assert(first.contains(first[i]));
        }
        if encoded.len() == 1 {
            split_at_first_separator(text, '&', text.len() as int);
            assert(split(text, '&') =~= seq![text] + none);
            pairs_of_first_piece(text, none);
            assert(seq![originals[0]] + Seq::<(Seq<char>, Seq<char>)>::empty() =~= originals);
        } else {
            let rest = query_text(encoded.skip(1));
            assert forall|i: int| 0 <= i < first.len() implies text[i] != '&' by {
                assert(text[i] == first[i]);
            }
            assert(text[first.len() as int] == '&');
            split_at_first_separator(text, '&', first.len() as int);
            assert(text.take(first.len() as int) =~= first);
            assert(text.skip(first.len() as int + 1) =~= rest);
            assert forall|i: int| 0 <= i < encoded.skip(1).len() implies encodes_pair(
                #[trigger] encoded.skip(1)[i],
                originals.skip(1)[i],
            ) by {
                assert(encodes_pair(encoded[i + 1], originals[i + 1]));
            }
            query_string_round_trip(encoded.skip(1), originals.skip(1));
            pairs_of_first_piece(first, split(rest, '&'));
            assert(seq![originals[0]] + originals.skip(1) =~= originals);
        }
    }
}

/// Cuts one non-empty `key=value` piece at its first `=` and decodes both
/// sides.
fn parse_pair(piece: &str) -> (pair: (String, String))
    ensures
        (pair.0@, pair.1@) == decoded_pair(piece@),
{
    let chars = chars_of(piece);
    let length = chars.len();
    let at = find_from(&chars, 0, '=');
    proof {
        first_index_of_is(piece@, '=', at as int);
    }
    if at < length {
        let key = piece.substring_char(0, at);
        let value = piece.substring_char(at + 1, length);
        assert(key@ =~= piece@.take(at as int));
        assert(value@ =~= piece@.skip(at + 1));
        (decode_component(key), decode_component(value))
    } else {
        let value = piece.substring_char(length, length);
        assert(value@ =~= Seq::<char>::empty());
        (decode_component(piece), decode_component(value))
    }
}

/// Reads the parameters out of a query string.
///
/// The string is cut at every `&`; empty pieces are passed over. Each other
/// piece is a key and a value, both percent-decoded, and each value is put
/// behind the earlier values of its key.
pub fn parse_query_string(query: &str) -> (params: QueryParams)
    ensures
        params@ == grouped(query_pairs(query@)),
        distinct_keys(params@),
        forall|key: Seq<char>| #[trigger]
            values_under(params@, key) == occurrences(query_pairs(query@), key),
{
    let chars = chars_of(query);
    let length = chars.len();
    let mut params = QueryParams::new();
    let mut start: usize = 0;
    let ghost mut done: Seq<(Seq<char>, Seq<char>)> = Seq::empty();
    proof {
        assert(query@.skip(0) =~= query@);
        assert(done + query_pairs(query@) =~= query_pairs(query@));
    }
    loop
        invariant_except_break
            query_pairs(query@) == done + pairs_of(split(query@.skip(start as int), '&')),
        invariant
            chars@ == query@,
            length == chars@.len(),
            start <= length,
            params@ == grouped(done),
        ensures
            params@ == grouped(query_pairs(query@)),
        decreases length - start,
    {
        let end = find_from(&chars, start, '&');
        let ghost remaining = query@.skip(start as int);
        let ghost pieces = split(remaining, '&');
        let ghost piece_view = remaining.take(end - start);
        proof {
            assert forall|i: int| 0 <= i < end - start implies remaining[i] != '&' by {
                assert(remaining[i] == chars@[start + i]);
            }
            split_at_first_separator(remaining, '&', end - start);
            assert(pieces[0] == piece_view);
            assert(piece_view =~= query@.subrange(start as int, end as int));
        }
        if end > start {
            let piece = query.substring_char(start, end);
            let (key, value) = parse_pair(piece);
            params.append(key, value);
            proof {
                let pair = (key@, value@);
                assert(done.push(pair).drop_last() =~= done);
                done = done.push(pair);
            }
        }
        proof {
            // What the invariant says of the pieces from `start` on, said of
            // the pieces behind the one just read.
            assert(query_pairs(query@) =~= done + pairs_of(pieces.skip(1)));
        }
        if end == length {
            proof {
                assert(pieces.skip(1) =~= Seq::<Seq<char>>::empty());
                assert(done + Seq::<(Seq<char>, Seq<char>)>::empty() =~= done);
            }
            break;
        }
        proof {
            assert(remaining.skip(end - start + 1) =~= query@.skip(end + 1));
            assert(pieces.skip(1) =~= split(query@.skip(end + 1), '&'));
        }
        start = end + 1;
    }
    proof {
        grouping_keeps_occurrences(query_pairs(query@), Seq::empty());
        assert forall|key: Seq<char>| #[trigger]
            values_under(params@, key) == occurrences(query_pairs(query@), key) by {
            grouping_keeps_occurrences(query_pairs(query@), key);
        }
    }
    params
}

} // verus!
