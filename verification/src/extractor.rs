//! From a file stem to its date token.
//!
//! A stem is a file name without its extension. Underscores divide it into
//! segments, and the last segment that is not empty is its token.

use crate::error::ExtractError;
use vstd::prelude::*;

verus! {

/// The character that divides a stem into segments.
pub const SEPARATOR: char = '_';

/// The segments of `stem`, in order: the runs of characters between its
/// separators. A stem with `n` separators has `n + 1` segments, some of
/// which may be empty.
pub open spec fn segments(stem: Seq<char>) -> Seq<Seq<char>>
    decreases stem.len(),
{
    if stem.len() == 0 {
        seq![Seq::<char>::empty()]
    } else {
        let before = segments(stem.drop_last());
        if stem.last() == SEPARATOR {
            before.push(Seq::<char>::empty())
        } else {
            before.drop_last().push(before.last().push(stem.last()))
        }
    }
}

/// The last of `parts` that is not empty, if there is one.
pub open spec fn last_non_empty(parts: Seq<Seq<char>>) -> Option<Seq<char>>
    decreases parts.len(),
{
    if parts.len() == 0 {
        None
    } else if parts.last().len() > 0 {
        Some(parts.last())
    } else {
        last_non_empty(parts.drop_last())
    }
}

/// The token of `stem`: its last segment that is not empty.
pub open spec fn token_of(stem: Seq<char>) -> Option<Seq<char>> {
    last_non_empty(segments(stem))
}

/// Every stem has at least one segment.
pub proof fn lemma_segments_len(stem: Seq<char>)
    ensures
        segments(stem).len() >= 1,
    decreases stem.len(),
{
    if stem.len() > 0 {
        lemma_segments_len(stem.drop_last());
    }
}

/// Takes the date token from a file stem: the last segment between
/// underscores that is not empty. A stem without an underscore is its own
/// token. Only a stem that holds nothing but underscores, or nothing at
/// all, has none. What the token holds is not looked at.
pub fn extract(stem: &str) -> (r: Result<&str, ExtractError>)
    ensures
        match token_of(stem@) {
            Some(token) => r is Ok && r->Ok_0@ == token,
            None => r == Err::<&str, ExtractError>(ExtractError::NoToken),
        },
{
    // Counting first shows that every position below fits its type.
    let len = stem.unicode_len();
    let mut segment_start: usize = 0;
    let mut token_start: usize = 0;
    let mut token_end: usize = 0;
    let mut i: usize = 0;
    proof {
        assert(stem@.take(0) =~= Seq::<char>::empty());
        assert(stem@.subrange(0, 0) =~= Seq::<char>::empty());
        assert(segments(stem@.take(0)).drop_last() =~= Seq::<Seq<char>>::empty());
        assert(last_non_empty(segments(stem@.take(0)).drop_last()) is None);
    }
    for c in it: stem.chars()
        invariant
            it.seq() == stem@,
            len == stem@.len(),
            i == it.index(),
            segment_start <= i,
            token_start <= token_end <= i,
            segments(stem@.take(i as int)).len() >= 1,
            segments(stem@.take(i as int)).last() == stem@.subrange(
                segment_start as int,
                i as int,
            ),
            token_end == 0 ==> token_of(stem@.take(i as int)) is None,
            token_end > 0 ==> token_start < token_end && token_of(stem@.take(i as int)) == Some(
                stem@.subrange(token_start as int, token_end as int),
            ),
    {
        proof {
            let before = stem@.take(i as int);
            let now = stem@.take(i + 1);
            assert(c == stem@[i as int]);
            assert(now.drop_last() =~= before);
            assert(now.last() == c);
            lemma_segments_len(before);
            if c == SEPARATOR {
                assert(segments(now).drop_last() =~= segments(before));
                assert(stem@.subrange(i + 1, i + 1) =~= Seq::<char>::empty());
            } else {
                assert(stem@.subrange(segment_start as int, i + 1) =~= stem@.subrange(
                    segment_start as int,
                    i as int,
                ).push(c));
            }
        }
        if c == SEPARATOR {
            segment_start = i + 1;
        } else {
            token_start = segment_start;
            token_end = i + 1;
        }
        i = i + 1;
    }
    proof {
        assert(stem@.take(i as int) =~= stem@);
    }
    if token_end == 0 {
        Err(ExtractError::NoToken)
    } else {
        Ok(stem.substring_char(token_start, token_end))
    }
}

} // verus!
