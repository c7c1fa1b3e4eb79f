//! Text as the pricing client meets it: bytes that may or may not be UTF-8,
//! and the whitespace around a number.

use vstd::prelude::*;
use vstd::string::StrSliceExecFns;
use vstd::utf8::{decode_utf8, valid_utf8};

verus! {

/// The characters that count as whitespace: those with the Unicode property
/// `White_Space`.
pub open spec fn is_whitespace(c: char) -> bool {
    let v = c as u32;
    ||| 0x09 <= v <= 0x0D
    ||| v == 0x20
    ||| v == 0x85
    ||| v == 0xA0
    ||| v == 0x1680
    ||| 0x2000 <= v <= 0x200A
    ||| v == 0x2028
    ||| v == 0x2029
    ||| v == 0x202F
    ||| v == 0x205F
    ||| v == 0x3000
}

/// `s` without its leading whitespace.
pub open spec fn trim_start(s: Seq<char>) -> Seq<char>
    decreases s.len(),
{
    if s.len() > 0 && is_whitespace(s.first()) {
        trim_start(s.drop_first())
    } else {
        s
    }
}

/// `s` without its trailing whitespace.
pub open spec fn trim_end(s: Seq<char>) -> Seq<char>
    decreases s.len(),
{
    if s.len() > 0 && is_whitespace(s.last()) {
        trim_end(s.drop_last())
    } else {
        s
    }
}

/// `s` without the whitespace on either side.
pub open spec fn trimmed(s: Seq<char>) -> Seq<char> {
    trim_end(trim_start(s))
}

/// Whether every character of `s` is whitespace.
pub open spec fn all_whitespace(s: Seq<char>) -> bool {
    forall|i: int| 0 <= i < s.len() ==> is_whitespace(#[trigger] s[i])
}

/// Cutting a run of whitespace off the front is what `trim_start` does,
/// provided the cut stops at the first character that is none.
pub proof fn lemma_trim_start_is_skip(s: Seq<char>, a: int)
    requires
        0 <= a <= s.len(),
        all_whitespace(s.take(a)),
        a < s.len() ==> !is_whitespace(s[a]),
    ensures
        trim_start(s) == s.skip(a),
    decreases a,
{
    if a == 0 {
        assert(s.skip(0) =~= s);
    } else {
        assert(s.take(a)[0] == s[0]);
        let rest = s.drop_first();
        assert forall|i: int| 0 <= i < rest.take(a - 1).len() implies is_whitespace(
            #[trigger] rest.take(a - 1)[i],
        ) by {
            assert(rest.take(a - 1)[i] == s.take(a)[i + 1]);
        }
        lemma_trim_start_is_skip(rest, a - 1);
        assert(rest.skip(a - 1) =~= s.skip(a));
    }
}

/// Cutting a run of whitespace off the back is what `trim_end` does,
/// provided the cut stops behind the last character that is none.
pub proof fn lemma_trim_end_is_take(s: Seq<char>, b: int)
    requires
        0 <= b <= s.len(),
        all_whitespace(s.skip(b)),
        0 < b ==> !is_whitespace(s[b - 1]),
    ensures
        trim_end(s) == s.take(b),
    decreases s.len() - b,
{
    if b == s.len() {
        assert(s.take(b) =~= s);
    } else {
        assert(s.skip(b)[s.len() - b - 1] == s.last());
        let rest = s.drop_last();
        assert forall|i: int| 0 <= i < rest.skip(b).len() implies is_whitespace(
            #[trigger] rest.skip(b)[i],
        ) by {
            assert(rest.skip(b)[i] == s.skip(b)[i]);
        }
        lemma_trim_end_is_take(rest, b);
        assert(rest.take(b) =~= s.take(b));
    }
}

/// Whether `c` is whitespace.
pub fn char_is_whitespace(c: char) -> (r: bool)
    ensures
        r == is_whitespace(c),
{
    let v: u32 = c as u32;
    (0x09 <= v && v <= 0x0D) || v == 0x20 || v == 0x85 || v == 0xA0 || v == 0x1680 || (0x2000 <= v
        && v <= 0x200A) || v == 0x2028 || v == 0x2029 || v == 0x202F || v == 0x205F || v == 0x3000
}

/// `s` without the whitespace on either side, as a string of its own.
pub fn trim(s: &str) -> (r: String)
    ensures
        r@ == trimmed(s@),
{
    let n: usize = s.unicode_len();
    let mut start: usize = 0;
    let mut end: usize = 0;
    let mut seen: usize = 0;
    let mut found: bool = false;
    for c in it: s.chars()
        invariant
            it.seq() == s@,
            n == s@.len(),
            seen == it.index(),
            found ==> start < end <= seen,
            found ==> all_whitespace(s@.take(start as int)) && !is_whitespace(s@[start as int]),
            found ==> all_whitespace(s@.subrange(end as int, seen as int)) && !is_whitespace(
                s@[end - 1],
            ),
            !found ==> all_whitespace(s@.take(seen as int)),
    {
        let ghost before = seen;
        let blank = char_is_whitespace(c);
        seen = seen + 1;
        if !blank {
            if !found {
                found = true;
                start = seen - 1;
                assert(s@.take(start as int) =~= s@.take(before as int));
            }
            end = seen;
            assert(s@.subrange(end as int, seen as int) =~= Seq::<char>::empty());
        } else {
            proof {
                if found {
                    assert forall|i: int| 0 <= i < seen - end implies is_whitespace(
                        #[trigger] s@.subrange(end as int, seen as int)[i],
                    ) by {
                        if i < before - end {
                            assert(s@.subrange(end as int, before as int)[i] == s@[end + i]);
                        }
                    }
                } else {
                    assert forall|i: int| 0 <= i < seen implies is_whitespace(
                        #[trigger] s@.take(seen as int)[i],
                    ) by {
                        if i < before {
                            assert(s@.take(before as int)[i] == s@[i]);
                        }
                    }
                }
            }
        }
    }
    if !found {
        proof {
            assert(s@.take(n as int) =~= s@);
            lemma_trim_start_is_skip(s@, n as int);
            assert(s@.skip(n as int) =~= Seq::<char>::empty());
        }
        String::new()
    } else {
        proof {
            lemma_trim_start_is_skip(s@, start as int);
            let rest = s@.skip(start as int);
            assert(rest.skip(end - start) =~= s@.subrange(end as int, n as int));
            assert(rest[end - start - 1] == s@[end - 1]);
            lemma_trim_end_is_take(rest, end - start);
            assert(rest.take(end - start) =~= s@.subrange(start as int, end as int));
        }
        s.substring_char(start, end).to_owned()
    }
}

/// Reads `bytes` as UTF-8 text. This is `String::from_utf8` of the standard
/// library with its error dropped: the text comes back exactly where the
/// bytes are well-formed UTF-8, and it then holds the characters that they
/// encode.
#[verifier::external_body]
pub(crate) fn string_from_utf8(bytes: Vec<u8>) -> (r: Option<String>)
    ensures
        r is Some <==> valid_utf8(bytes@),
        r matches Some(s) ==> s@ == decode_utf8(bytes@),
{
    String::from_utf8(bytes).ok()
}

/// Appends one character to `s`. This is `String::push` of the standard
/// library.
#[verifier::external_body]
pub(crate) fn push_char(s: &mut String, c: char)
    ensures
        final(s)@ == old(s)@.push(c),
{
    s.push(c)
}

} // verus!
