//! Small helpers on text that the scanner and the keyword tables share.

use vstd::prelude::*;
use vstd::string::StringSliceAdditionalSpecFns;

verus! {

/// Tells whether two string slices hold the same characters.
pub fn str_eq(a: &str, b: &str) -> (same: bool)
    ensures
        same == (a@ == b@),
{
    let x = a.as_bytes();
    let y = b.as_bytes();
    proof {
        vstd::utf8::encode_utf8_decode_utf8(a@);
        vstd::utf8::encode_utf8_decode_utf8(b@);
    }
    if x.len() != y.len() {
        return false;
    }
    let mut i: usize = 0;
    while i < x.len()
        invariant
            i <= x.len(),
            x.len() == y.len(),
            x@ == a.spec_bytes(),
            y@ == b.spec_bytes(),
            forall|j: int| 0 <= j < i ==> x@[j] == y@[j],
        decreases x.len() - i,
    {
        if x[i] != y[i] {
            return false;
        }
        i += 1;
    }
    assert(x@ =~= y@);
    true
}

/// How many bytes the UTF-8 form of a character takes.
pub open spec fn char_width(c: char) -> nat {
    vstd::utf8::encode_scalar(c as u32).len()
}

/// How many bytes the UTF-8 form of a text takes.
pub open spec fn byte_len(text: Seq<char>) -> nat {
    vstd::utf8::encode_utf8(text).len()
}

/// One more character at the end of a text adds its width to the byte length.
pub proof fn lemma_byte_len_push(text: Seq<char>, c: char)
    ensures
        byte_len(text.push(c)) == byte_len(text) + char_width(c),
    decreases text.len(),
{
    if text.len() == 0 {
        assert(text.push(c).drop_first() =~= Seq::<char>::empty());
        assert(vstd::utf8::encode_utf8(Seq::<char>::empty()).len() == 0);
    } else {
        lemma_byte_len_push(text.drop_first(), c);
        assert(text.push(c).drop_first() =~= text.drop_first().push(c));
    }
}

/// One more character of a text adds its width to the byte length.
pub proof fn lemma_byte_len_step(text: Seq<char>, i: int)
    requires
        0 <= i < text.len(),
    ensures
        byte_len(text.take(i + 1)) == byte_len(text.take(i)) + char_width(text[i]),
{
    lemma_byte_len_push(text.take(i), text[i]);
    assert(text.take(i + 1) =~= text.take(i).push(text[i]));
}

/// A longer prefix of a text has at least as many bytes.
pub proof fn lemma_byte_len_monotone(text: Seq<char>, i: int, j: int)
    requires
        0 <= i <= j <= text.len(),
    ensures
        byte_len(text.take(i)) <= byte_len(text.take(j)),
    decreases j - i,
{
    if i < j {
        lemma_byte_len_monotone(text, i, j - 1);
        lemma_byte_len_step(text, j - 1);
    }
}

/// The width of a character in UTF-8.
pub fn utf8_width(c: char) -> (width: usize)
    ensures
        width == char_width(c),
        1 <= width <= 4,
{
    proof {
        vstd::utf8::char_is_scalar(c);
    }
    let code = c as u32;
    if code < 0x80 {
        1
    } else if code < 0x800 {
        2
    } else if code < 0x10000 {
        3
    } else {
        4
    }
}

/// Appends a character to a text, by `String::push` of std. Taken on
/// trust: that the text is afterwards what it was before with `c` as its
/// new last character.
#[verifier::external_body]
pub(crate) fn push_char(text: &mut String, c: char)
    ensures
        final(text)@ == old(text)@.push(c),
{
    text.push(c)
}

/// The characters of a text, one by one. A text lies in memory, so its
/// length in bytes fits a `usize`.
pub fn chars_of(text: &str) -> (chars: Vec<char>)
    ensures
        chars@ == text@,
        byte_len(chars@) <= usize::MAX,
{
    let mut chars: Vec<char> = Vec::with_capacity(text.as_bytes().len());
    for c in it: text.chars()
        invariant
            chars@ == it.seq().take(it.index() as int),
    {
        chars.push(c);
    }
    chars
}

/// The text that the characters from `from` up to `to` make.
pub fn text_between(chars: &Vec<char>, from: usize, to: usize) -> (text: String)
    requires
        from <= to <= chars@.len(),
    ensures
        text@ == chars@.subrange(from as int, to as int),
{
    let mut text = String::new();
    let mut i = from;
    while i < to
        invariant
            from <= i <= to <= chars@.len(),
            text@ == chars@.subrange(from as int, i as int),
        decreases to - i,
    {
        push_char(&mut text, chars[i]);
        i += 1;
    }
    text
}

} // verus!
