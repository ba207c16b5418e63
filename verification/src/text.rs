//! Text as sequences of characters: the pieces that the cookie and
//! credential rules are stated over.

use vstd::prelude::*;
use vstd::std_specs::iter::IteratorSpec;

verus! {

/// The characters of `text`, in order.
pub fn chars_of(text: &str) -> (chars: Vec<char>)
    ensures
        chars@ == text@,
{
    let mut chars: Vec<char> = Vec::new();
    let mut rest = text.chars();
    loop
        invariant
            chars@ + rest.remaining() == text@,
            rest.obeys_prophetic_iter_laws(),
            rest.decrease() is Some,
        ensures
            chars@ == text@,
        decreases rest.decrease()->0,
    {
        let ghost before = rest;
        match rest.next() {
            Some(c) => {
                proof {
                    vstd::string::next_postcondition(&before, &rest, Some(c));
                }
                chars.push(c);
            },
            None => {
                proof {
                    vstd::string::next_postcondition(&before, &rest, None);
                }
                break ;
            },
        }
    }
    chars
}

/// Whether `c` is white space, as Unicode defines it.
pub open spec fn is_whitespace(c: char) -> bool {
    let n = c as u32;
    ||| 0x09 <= n <= 0x0D
    ||| n == 0x20
    ||| n == 0x85
    ||| n == 0xA0
    ||| n == 0x1680
    ||| 0x2000 <= n <= 0x200A
    ||| n == 0x2028
    ||| n == 0x2029
    ||| n == 0x202F
    ||| n == 0x205F
    ||| n == 0x3000
}

/// `text` without the white space that it begins with.
pub open spec fn trim_start(text: Seq<char>) -> Seq<char>
    decreases text.len(),
{
    if text.len() > 0 && is_whitespace(text[0]) {
        trim_start(text.drop_first())
    } else {
        text
    }
}

/// `text` without the white space that it ends with.
pub open spec fn trim_end(text: Seq<char>) -> Seq<char>
    decreases text.len(),
{
    if text.len() > 0 && is_whitespace(text.last()) {
        trim_end(text.drop_last())
    } else {
        text
    }
}

/// `text` without the white space around it.
pub open spec fn trim(text: Seq<char>) -> Seq<char> {
    trim_end(trim_start(text))
}

/// Text that neither begins nor ends with white space is its own trimmed form.
pub proof fn lemma_trim_tight(text: Seq<char>)
    requires
        text.len() > 0 ==> !is_whitespace(text[0]) && !is_whitespace(text.last()),
    ensures
        trim(text) == text,
{
}

/// Trimming removes exactly the white space that the text begins with.
pub proof fn lemma_trim_start_skips(text: Seq<char>, n: int)
    requires
        0 <= n <= text.len(),
        forall|i: int| 0 <= i < n ==> is_whitespace(#[trigger] text[i]),
        n < text.len() ==> !is_whitespace(text[n]),
    ensures
        trim_start(text) == text.skip(n),
    decreases n,
{
    if n > 0 {
        let rest = text.drop_first();
        assert forall|i: int| 0 <= i < n - 1 implies is_whitespace(#[trigger] rest[i]) by {
            assert(rest[i] == text[i + 1]);
        }
        lemma_trim_start_skips(rest, n - 1);
        assert(rest.skip(n - 1) =~= text.skip(n));
    } else {
        assert(text.skip(0) =~= text);
    }
}

/// Trimming removes exactly the white space that the text ends with.
pub proof fn lemma_trim_end_takes(text: Seq<char>, n: int)
    requires
        0 <= n <= text.len(),
        forall|i: int| n <= i < text.len() ==> is_whitespace(#[trigger] text[i]),
        n > 0 ==> !is_whitespace(text[n - 1]),
    ensures
        trim_end(text) == text.take(n),
    decreases text.len() - n,
{
    if n < text.len() {
        let rest = text.drop_last();
        lemma_trim_end_takes(rest, n);
        assert(rest.take(n) =~= text.take(n));
    } else {
        assert(text.take(n) =~= text);
    }
}

/// Whether `c` is white space.
pub fn is_space(c: char) -> (space: bool)
    ensures
        space == is_whitespace(c),
{
    let n: u32 = c as u32;
    (0x09 <= n && n <= 0x0D) || n == 0x20 || n == 0x85 || n == 0xA0 || n == 0x1680 || (0x2000
        <= n && n <= 0x200A) || n == 0x2028 || n == 0x2029 || n == 0x202F || n == 0x205F || n
        == 0x3000
}

/// Where the trimmed form of `chars[from..to]` begins and ends.
pub fn trim_bounds(chars: &Vec<char>, from: usize, to: usize) -> (bounds: (usize, usize))
    requires
        from <= to <= chars.len(),
    ensures
        from <= bounds.0 <= bounds.1 <= to,
        chars@.subrange(bounds.0 as int, bounds.1 as int) == trim(
            chars@.subrange(from as int, to as int),
        ),
{
    let ghost part = chars@.subrange(from as int, to as int);
    let mut begin: usize = from;
    while begin < to && is_space(chars[begin])
        invariant
            from <= begin <= to <= chars.len(),
            part == chars@.subrange(from as int, to as int),
            forall|i: int| 0 <= i < begin - from ==> is_whitespace(#[trigger] part[i]),
        decreases to - begin,
    {
        begin += 1;
    }
    let ghost inner = chars@.subrange(begin as int, to as int);
    proof {
        lemma_trim_start_skips(part, begin - from);
        assert(part.skip(begin - from) =~= inner);
    }
    let mut end: usize = to;
    while end > begin && is_space(chars[end - 1])
        invariant
            begin <= end <= to <= chars.len(),
            inner == chars@.subrange(begin as int, to as int),
            forall|i: int| end - begin <= i < inner.len() ==> is_whitespace(#[trigger] inner[i]),
        decreases end,
    {
        end -= 1;
    }
    proof {
        lemma_trim_end_takes(inner, end - begin);
        assert(inner.take(end - begin) =~= chars@.subrange(begin as int, end as int));
    }
    (begin, end)
}

/// Whether `a` and `b` hold the same text. Texts of one length are
/// compared byte by byte to the end, whatever the bytes before were: the
/// comparison does not stop at the first difference.
pub fn same_text(a: &str, b: &str) -> (same: bool)
    ensures
        same == (a@ == b@),
{
    let left = a.as_bytes();
    let right = b.as_bytes();
    proof {
        vstd::utf8::encode_utf8_decode_utf8(a@);
        vstd::utf8::encode_utf8_decode_utf8(b@);
    }
    if left.len() != right.len() {
        return false;
    }
    let mut difference: u8 = 0;
    let mut i: usize = 0;
    assert(left@.take(0) =~= right@.take(0));
    while i < left.len()
        invariant
            i <= left.len(),
            left.len() == right.len(),
            difference == 0 <==> left@.take(i as int) == right@.take(i as int),
        decreases left.len() - i,
    {
        let x: u8 = left[i];
        let y: u8 = right[i];
        let ghost before = difference;
        difference = difference | (x ^ y);
        proof {
            assert((before | (x ^ y)) == 0 <==> before == 0 && x == y) by (bit_vector);
            let l = left@.take(i + 1);
            let r = right@.take(i + 1);
            assert(l.drop_last() =~= left@.take(i as int));
            assert(r.drop_last() =~= right@.take(i as int));
            if before == 0 && x == y {
                assert(l =~= r);
            }
            if l == r {
                assert(l.last() == r.last());
            }
        }
        i += 1;
    }
    proof {
        assert(left@.take(i as int) =~= left@);
        assert(right@.take(i as int) =~= right@);
    }
    difference == 0
}

} // verus!
