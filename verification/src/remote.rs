//! The latest published version, as the version query answers it.

use vstd::prelude::*;

verus! {

/// Whether a character is white space: whether Unicode gives it the
/// property `White_Space`. These are the tabulator and the four line and
/// page controls behind it, the space, the next-line control, the no-break
/// space, the Ogham space mark, the spaces of fixed width from the en quad
/// to the hair space, the line and the paragraph separator, the narrow
/// no-break space, the medium mathematical space and the ideographic space.
pub open spec fn is_white_space(c: char) -> bool {
    let code = c as u32;
    ||| 0x0009 <= code <= 0x000d
    ||| code == 0x0020
    ||| code == 0x0085
    ||| code == 0x00a0
    ||| code == 0x1680
    ||| 0x2000 <= code <= 0x200a
    ||| code == 0x2028
    ||| code == 0x2029
    ||| code == 0x202f
    ||| code == 0x205f
    ||| code == 0x3000
}

/// Tests whether a character is white space.
pub fn white_space(c: char) -> (white: bool)
    ensures
        white == is_white_space(c),
{
    let code: u32 = c as u32;
    (0x0009 <= code && code <= 0x000d) || code == 0x0020 || code == 0x0085 || code == 0x00a0
        || code == 0x1680 || (0x2000 <= code && code <= 0x200a) || code == 0x2028 || code
        == 0x2029 || code == 0x202f || code == 0x205f || code == 0x3000
}

/// How many characters of white space `text` begins with.
pub open spec fn leading_white_space(text: Seq<char>) -> nat
    decreases text.len(),
{
    if text.len() > 0 && is_white_space(text.first()) {
        1 + leading_white_space(text.drop_first())
    } else {
        0
    }
}

/// How many characters of white space `text` ends with.
pub open spec fn trailing_white_space(text: Seq<char>) -> nat
    decreases text.len(),
{
    if text.len() > 0 && is_white_space(text.last()) {
        1 + trailing_white_space(text.drop_last())
    } else {
        0
    }
}

/// `text` without the white space that it begins and ends with.
pub open spec fn trimmed(text: Seq<char>) -> Seq<char> {
    let tail = text.skip(leading_white_space(text) as int);
    tail.take(tail.len() - trailing_white_space(tail))
}

/// The latest published version, from the body of the answer to the version
/// query: the body without the white space around it, taken as it is. It is
/// not tested for being a semantic version.
pub fn get_remote_version(body: &str) -> (version: String)
    ensures
        version@ == trimmed(body@),
{
    let n: usize = body.unicode_len();
    let mut start: usize = 0;
    proof {
        assert(body@.skip(0) =~= body@);
    }
    while start < n && white_space(body.get_char(start))
        invariant
            start <= n,
            n == body@.len(),
            leading_white_space(body@) == start + leading_white_space(body@.skip(start as int)),
        decreases n - start,
    {
        proof {
            let rest = body@.skip(start as int);
            assert(rest.first() == body@[start as int]);
            assert(rest.drop_first() =~= body@.skip(start + 1));
        }
        start += 1;
    }
    let ghost tail = body@.skip(start as int);
    proof {
        if start < n {
            assert(tail.first() == body@[start as int]);
        }
        assert(leading_white_space(body@) == start);
    }
    let mut end: usize = n;
    proof {
        assert(tail.take(n - start) =~= tail);
    }
    while end > start && white_space(body.get_char(end - 1))
        invariant
            start <= end <= n,
            n == body@.len(),
            tail == body@.skip(start as int),
            trailing_white_space(tail) == (n - end) + trailing_white_space(tail.take(end - start)),
        decreases end,
    {
        proof {
            let head = tail.take(end - start);
            assert(head.last() == body@[end - 1]);
            assert(head.drop_last() =~= tail.take(end - 1 - start));
        }
        end -= 1;
    }
    proof {
        let head = tail.take(end - start);
        if end > start {
            assert(head.last() == body@[end - 1]);
        }
        assert(trailing_white_space(tail) == n - end);
        assert(body@.subrange(start as int, end as int) =~= tail.take(
            tail.len() - trailing_white_space(tail),
        ));
    }
    String::from_str(body.substring_char(start, end))
}

} // verus!
