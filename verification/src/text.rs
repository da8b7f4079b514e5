//! Small operations on text that the rest of the crate shares.

use vstd::prelude::*;
use vstd::string::StringSliceAdditionalSpecFns;
use vstd::utf8::{decode_utf8, encode_utf8, encode_utf8_decode_utf8, valid_utf8};

verus! {

/// The text that `bytes` are read as when they need not be UTF-8: every
/// stretch that is UTF-8 as it stands, with `U+FFFD` in place of what is not.
pub uninterp spec fn lossy_text(bytes: Seq<u8>) -> Seq<char>;

/// The text that bytes are read as: what they say in UTF-8 where they are
/// UTF-8, and [`lossy_text`] where they are not.
pub open spec fn text_read_from(bytes: Seq<u8>) -> Seq<char> {
    if valid_utf8(bytes) {
        decode_utf8(bytes)
    } else {
        lossy_text(bytes)
    }
}

/// Reads bytes as text, whatever they hold.
///
/// Wraps `String::from_utf8_lossy`, which returns valid UTF-8 unchanged and
/// puts the replacement character `U+FFFD` where the bytes are not UTF-8.
/// How it cuts invalid input into replaced stretches is left to the name
/// [`lossy_text`].
#[verifier::external_body]
pub(crate) fn text_of(bytes: &[u8]) -> (text: String)
    ensures
        text@ == lossy_text(bytes@),
        valid_utf8(bytes@) ==> text@ == decode_utf8(bytes@),
{
    String::from_utf8_lossy(bytes).into_owned()
}

/// The index of the first `wanted` in `text`, or the length of `text` where
/// there is none.
pub open spec fn first_index_of(text: Seq<char>, wanted: char) -> int
    decreases text.len(),
{
    if text.len() == 0 || text[0] == wanted {
        0
    } else {
        1 + first_index_of(text.skip(1), wanted)
    }
}

/// The pieces of `text` that lie between occurrences of `separator`: one
/// more piece than there are separators, some of them possibly empty.
pub open spec fn split(text: Seq<char>, separator: char) -> Seq<Seq<char>>
    decreases text.len(),
{
    if text.len() == 0 {
        seq![Seq::empty()]
    } else {
        let rest = split(text.skip(1), separator);
        if text[0] == separator {
            seq![Seq::empty()] + rest
        } else {
            seq![seq![text[0]] + rest[0]] + rest.skip(1)
        }
    }
}

/// `text` without the run of `leading` characters that it starts with.
pub open spec fn trim_start(text: Seq<char>, leading: char) -> Seq<char>
    decreases text.len(),
{
    if text.len() > 0 && text[0] == leading {
        trim_start(text.skip(1), leading)
    } else {
        text
    }
}

/// Where `index` is the first place at which `wanted` stands in `text`, or
/// the end of a text that does not hold it, `first_index_of` is `index`.
pub proof fn first_index_of_is(text: Seq<char>, wanted: char, index: int)
    requires
        0 <= index <= text.len(),
        forall|i: int| 0 <= i < index ==> text[i] != wanted,
        index < text.len() ==> text[index] == wanted,
    ensures
        first_index_of(text, wanted) == index,
    decreases index,
{
    if index > 0 {
        assert(text[0] != wanted);
        first_index_of_is(text.skip(1), wanted, index - 1);
    }
}

/// Where the first separator of `text` stands at `index`, the first piece is
/// what comes before it and the other pieces are those of what follows it. A
/// text without a separator is its own single piece.
pub proof fn split_at_first_separator(text: Seq<char>, separator: char, index: int)
    requires
        0 <= index <= text.len(),
        forall|i: int| 0 <= i < index ==> text[i] != separator,
        index < text.len() ==> text[index] == separator,
    ensures
        index < text.len() ==> split(text, separator) == seq![text.take(index)] + split(
            text.skip(index + 1),
            separator,
        ),
        index == text.len() ==> split(text, separator) == seq![text],
    decreases index,
{
    if index == 0 {
        if text.len() > 0 {
            assert(text.take(0) =~= Seq::empty());
        } else {
            assert(text =~= Seq::empty());
        }
    } else {
        let tail = text.skip(1);
        assert(text[0] != separator);
        split_at_first_separator(tail, separator, index - 1);
        let rest = split(tail, separator);
        if index < text.len() {
            assert(tail.skip(index - 1 + 1) =~= text.skip(index + 1));
            assert(rest[0] == tail.take(index - 1));
            assert(seq![text[0]] + tail.take(index - 1) =~= text.take(index));
            assert(rest.skip(1) =~= split(text.skip(index + 1), separator));
            assert(split(text, separator) =~= seq![text.take(index)] + split(
                text.skip(index + 1),
                separator,
            ));
        } else {
            assert(rest[0] == tail);
            assert(seq![text[0]] + tail =~= text);
            assert(rest.skip(1) =~= Seq::<Seq<char>>::empty());
            assert(split(text, separator) =~= seq![text]);
        }
    }
}

/// Where `count` is the length of the run of `leading` at the start of
/// `text`, trimming leaves what follows the run.
pub proof fn trim_start_is(text: Seq<char>, leading: char, count: int)
    requires
        0 <= count <= text.len(),
        forall|i: int| 0 <= i < count ==> text[i] == leading,
        count < text.len() ==> text[count] != leading,
    ensures
        trim_start(text, leading) == text.skip(count),
    decreases count,
{
    if count > 0 {
        assert(text[0] == leading);
        trim_start_is(text.skip(1), leading, count - 1);
        assert(text.skip(1).skip(count - 1) =~= text.skip(count));
    } else {
        assert(text.skip(0) =~= text);
    }
}

/// The first index at or after `from` at which `wanted` stands in `chars`,
/// or the length of `chars` where it stands nowhere from there on.
pub fn find_from(chars: &Vec<char>, from: usize, wanted: char) -> (index: usize)
    requires
        from <= chars@.len(),
    ensures
        from <= index <= chars@.len(),
        forall|i: int| from <= i < index ==> chars@[i] != wanted,
        index < chars@.len() ==> chars@[index as int] == wanted,
{
    let mut index = from;
    while index < chars.len() && chars[index] != wanted
        invariant
            from <= index <= chars@.len(),
            forall|i: int| from <= i < index ==> chars@[i] != wanted,
        decreases chars@.len() - index,
    {
        index += 1;
    }
    index
}

/// Whether two strings hold the same characters.
pub fn str_eq(left: &str, right: &str) -> (equal: bool)
    ensures
        equal == (left@ == right@),
{
    let a = left.as_bytes();
    let b = right.as_bytes();
    proof {
        encode_utf8_decode_utf8(left@);
        encode_utf8_decode_utf8(right@);
    }
    if a.len() != b.len() {
        return false;
    }
    let mut i: usize = 0;
    while i < a.len()
        invariant
            i <= a@.len(),
            a@.len() == b@.len(),
            a@ == encode_utf8(left@),
            b@ == encode_utf8(right@),
            a@.subrange(0, i as int) == b@.subrange(0, i as int),
        decreases a@.len() - i,
    {
        if a[i] != b[i] {
            assert(a@[i as int] != b@[i as int]);
            return false;
        }
        assert(a@.subrange(0, i + 1) =~= a@.subrange(0, i as int).push(a@[i as int]));
        assert(b@.subrange(0, i + 1) =~= b@.subrange(0, i as int).push(b@[i as int]));
        i += 1;
    }
    assert(a@ =~= a@.subrange(0, i as int));
    assert(b@ =~= b@.subrange(0, i as int));
    true
}

/// The characters of a string, one by one.
pub fn chars_of(text: &str) -> (chars: Vec<char>)
    ensures
        chars@ == text@,
{
    let mut chars: Vec<char> = Vec::new();
    for c in it: text.chars()
        invariant
            chars@ == it.seq().take(it.index() as int),
    {
        chars.push(c);
    }
    chars
}

} // verus!
