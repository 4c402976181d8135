use vstd::prelude::*;
use vstd::utf8::encode_utf8;

verus! {

/// How many bytes `text` takes in UTF-8.
pub open spec fn byte_len(text: Seq<char>) -> nat {
    encode_utf8(text).len()
}

/// The characters with the Unicode property White_Space.
pub open spec fn is_white_space(c: char) -> bool {
    ||| '\u{9}' <= c <= '\u{d}'
    ||| c == ' '
    ||| c == '\u{85}'
    ||| c == '\u{a0}'
    ||| c == '\u{1680}'
    ||| '\u{2000}' <= c <= '\u{200a}'
    ||| '\u{2028}' <= c <= '\u{2029}'
    ||| c == '\u{202f}'
    ||| c == '\u{205f}'
    ||| c == '\u{3000}'
}

/// `text` without the white space it starts with.
pub open spec fn without_leading_space(text: Seq<char>) -> Seq<char>
    decreases text.len(),
{
    if text.len() > 0 && is_white_space(text[0]) {
        without_leading_space(text.drop_first())
    } else {
        text
    }
}

/// `text` without the white space it ends with.
pub open spec fn without_trailing_space(text: Seq<char>) -> Seq<char>
    decreases text.len(),
{
    if text.len() > 0 && is_white_space(text.last()) {
        without_trailing_space(text.drop_last())
    } else {
        text
    }
}

/// `text` without the white space around it.
pub open spec fn trimmed(text: Seq<char>) -> Seq<char> {
    without_trailing_space(without_leading_space(text))
}

/// `text` without the `c`s it ends with.
pub open spec fn without_trailing(text: Seq<char>, c: char) -> Seq<char>
    decreases text.len(),
{
    if text.len() > 0 && text.last() == c {
        without_trailing(text.drop_last(), c)
    } else {
        text
    }
}

/// Calls `str::trim`, which takes away the characters with the Unicode property White_Space on both
/// sides and leaves all others.
#[verifier::external_body]
pub(crate) fn trim(text: &str) -> (inner: &str)
    ensures
        inner@ == trimmed(text@),
{
    text.trim()
}

/// Calls `str::trim_end_matches` with a character, which takes away that character at the end as
/// often as it stands there.
#[verifier::external_body]
pub(crate) fn trim_end_matches(text: &str, c: char) -> (front: &str)
    ensures
        front@ == without_trailing(text@, c),
{
    text.trim_end_matches(c)
}

/// The bytes of two texts are those of the one followed by those of the other.
pub(crate) proof fn lemma_byte_len_concat(a: Seq<char>, b: Seq<char>)
    ensures
        byte_len(a + b) == byte_len(a) + byte_len(b),
    decreases a.len(),
{
    if a.len() == 0 {
        assert(a + b =~= b);
    } else {
        lemma_byte_len_concat(a.drop_first(), b);
        assert((a + b).drop_first() =~= a.drop_first() + b);
    }
}

/// Trimming changes nothing where neither end is white space, and only there.
pub(crate) proof fn lemma_trimmed_is_same(text: Seq<char>)
    ensures
        trimmed(text) == text <==> text.len() == 0 || !is_white_space(text[0]) && !is_white_space(
            text.last(),
        ),
{
    lemma_trims_shorten(text);
    lemma_trims_shorten(without_leading_space(text));
}

/// What is cut off is `c`s only, and what is left does not end in one.
pub(crate) proof fn lemma_without_trailing(text: Seq<char>, c: char)
    ensures
        without_trailing(text, c).is_prefix_of(text),
        without_trailing(text, c).len() > 0 ==> without_trailing(text, c).last() != c,
        forall|i: int| without_trailing(text, c).len() <= i < text.len() ==> text[i] == c,
    decreases text.len(),
{
    if text.len() > 0 && text.last() == c {
        let front = text.drop_last();
        lemma_without_trailing(front, c);
        assert forall|i: int| without_trailing(text, c).len() <= i < text.len() implies text[i]
            == c by {
            if i < front.len() {
                assert(front[i] == text[i]);
            }
        }
    }
}

/// Trimming takes white space away on both sides and nothing else: what is left is a part of the
/// text that neither starts nor ends with white space, and all that stands before and behind it is
/// white space.
pub proof fn law_trimming_takes_white_space_only(text: Seq<char>)
    ensures
        trimmed(text).len() > 0 ==> !is_white_space(trimmed(text)[0]) && !is_white_space(
            trimmed(text).last(),
        ),
        exists|start: int|
            {
                &&& 0 <= start <= start + trimmed(text).len() <= text.len()
                &&& trimmed(text) == #[trigger] text.subrange(start, start + trimmed(text).len())
                &&& forall|i: int| 0 <= i < start ==> is_white_space(#[trigger] text[i])
                &&& forall|i: int|
                    start + trimmed(text).len() <= i < text.len() ==> is_white_space(
                        #[trigger] text[i],
                    )
            },
{
    let front = without_leading_space(text);
    lemma_without_leading_space(text);
    lemma_without_trailing_space(front);
    let start = text.len() - front.len();
    let inner = trimmed(text);
    assert(inner =~= text.subrange(start, start + inner.len())) by {
        assert forall|i: int| 0 <= i < inner.len() implies inner[i] == text[start + i] by {
            assert(front[i] == text[start + i]);
        }
    }
    assert forall|i: int| start + inner.len() <= i < text.len() implies is_white_space(
        #[trigger] text[i],
    ) by {
        assert(front[i - start] == text[i]);
    }
    if inner.len() > 0 {
        assert(inner[0] == front[0]);
    }
}

/// The white space among the ASCII characters is the space, and the tab to the carriage return.
pub proof fn law_ascii_white_space(c: char)
    requires
        c as u32 <= 127,
    ensures
        is_white_space(c) <==> c as u32 == 32 || 9 <= c as u32 <= 13,
{
}

/// The bytes of a text are those of its characters: one for ASCII, and up to four for others.
pub proof fn law_byte_len_adds_up(a: Seq<char>, b: Seq<char>, c: char)
    ensures
        byte_len(Seq::<char>::empty()) == 0,
        byte_len(a + b) == byte_len(a) + byte_len(b),
        byte_len(seq![c]) == if c as u32 <= 0x7f {
            1int
        } else if c as u32 <= 0x7ff {
            2int
        } else if c as u32 <= 0xffff {
            3int
        } else {
            4int
        },
{
    lemma_byte_len_concat(a, b);
    assert(seq![c].drop_first() =~= Seq::<char>::empty());
    assert(byte_len(Seq::<char>::empty()) == 0);
}

proof fn lemma_without_leading_space(text: Seq<char>)
    ensures
        without_leading_space(text).len() <= text.len(),
        without_leading_space(text).len() > 0 ==> !is_white_space(without_leading_space(text)[0]),
        without_leading_space(text) == text.skip(text.len() - without_leading_space(text).len()),
        forall|i: int|
            0 <= i < text.len() - without_leading_space(text).len() ==> is_white_space(
                #[trigger] text[i],
            ),
    decreases text.len(),
{
    if text.len() > 0 && is_white_space(text[0]) {
        let rest = text.drop_first();
        lemma_without_leading_space(rest);
        let inner = without_leading_space(text);
        assert(inner =~= text.skip(text.len() - inner.len()));
        assert forall|i: int| 0 <= i < text.len() - inner.len() implies is_white_space(
            #[trigger] text[i],
        ) by {
            if i > 0 {
                assert(rest[i - 1] == text[i]);
            }
        }
    } else {
        assert(text =~= text.skip(0));
    }
}

proof fn lemma_without_trailing_space(text: Seq<char>)
    ensures
        without_trailing_space(text).is_prefix_of(text),
        without_trailing_space(text).len() > 0 ==> !is_white_space(
            without_trailing_space(text).last(),
        ),
        forall|i: int|
            without_trailing_space(text).len() <= i < text.len() ==> is_white_space(
                #[trigger] text[i],
            ),
    decreases text.len(),
{
    if text.len() > 0 && is_white_space(text.last()) {
        let front = text.drop_last();
        lemma_without_trailing_space(front);
        assert forall|i: int|
            without_trailing_space(text).len() <= i < text.len() implies is_white_space(
            #[trigger] text[i],
        ) by {
            if i < front.len() {
                assert(front[i] == text[i]);
            }
        }
    }
}

proof fn lemma_trims_shorten(text: Seq<char>)
    ensures
        without_leading_space(text).len() <= text.len(),
        without_trailing_space(text).len() <= text.len(),
        without_leading_space(text).len() == text.len() ==> text.len() == 0 || !is_white_space(
            text[0],
        ),
        without_trailing_space(text).len() == text.len() ==> text.len() == 0 || !is_white_space(
            text.last(),
        ),
    decreases text.len(),
{
    if text.len() > 0 {
        lemma_trims_shorten(text.drop_first());
        lemma_trims_shorten(text.drop_last());
    }
}

} // verus!
