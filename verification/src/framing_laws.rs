//! What splitting and trimming amount to, stated without the scan that
//! defines them.

use vstd::prelude::*;
use crate::framing::{
    content_end, content_start, space_at, space_before, split_events, split_from, trimmed,
    LINE_FEED,
};

verus! {

/// The pieces put together again, with a blank line between each two.
pub open spec fn joined(pieces: Seq<Seq<u8>>) -> Seq<u8>
    decreases pieces.len(),
{
    if pieces.len() == 0 {
        Seq::empty()
    } else if pieces.len() == 1 {
        pieces[0]
    } else {
        pieces[0] + seq![LINE_FEED, LINE_FEED] + joined(pieces.skip(1))
    }
}

/// Whether a blank line stands somewhere in `s`.
pub open spec fn holds_separator(s: Seq<u8>) -> bool {
    exists|j: int| 0 <= j && j + 1 < s.len() && #[trigger] s[j] == LINE_FEED && s[j + 1] == LINE_FEED
}

/// Whether `s` is white-space characters from its first byte to its last.
pub open spec fn is_space_run(s: Seq<u8>) -> bool
    decreases s.len(),
{
    s.len() == 0 || (space_at(s, 0) > 0 && is_space_run(s.skip(space_at(s, 0))))
}

/// Whether `s` is white-space characters from its last byte back to its
/// first.
pub open spec fn is_space_run_back(s: Seq<u8>) -> bool
    decreases s.len(),
{
    s.len() == 0 || (space_before(s, 0, s.len() as int) > 0 && is_space_run_back(
        s.take(s.len() - space_before(s, 0, s.len() as int)),
    ))
}

proof fn lemma_split_is_not_empty(s: Seq<u8>, start: int, i: int)
    requires
        0 <= start <= i <= s.len(),
    ensures
        split_from(s, start, i).len() >= 1,
    decreases s.len() - i,
{
    if i + 1 >= s.len() {
    } else if s[i] == LINE_FEED && s[i + 1] == LINE_FEED {
        lemma_split_is_not_empty(s, i + 2, i + 2);
    } else {
        lemma_split_is_not_empty(s, start, i + 1);
    }
}

proof fn lemma_joined_split(s: Seq<u8>, start: int, i: int)
    requires
        0 <= start <= i <= s.len(),
    ensures
        joined(split_from(s, start, i)) == s.subrange(start, s.len() as int),
    decreases s.len() - i,
{
    if i + 1 >= s.len() {
    } else if s[i] == LINE_FEED && s[i + 1] == LINE_FEED {
        lemma_joined_split(s, i + 2, i + 2);
        lemma_split_is_not_empty(s, i + 2, i + 2);
        let rest = split_from(s, i + 2, i + 2);
        let pieces = split_from(s, start, i);
        assert(pieces == seq![s.subrange(start, i)] + rest);
        assert(pieces.skip(1) =~= rest);
        assert(pieces[0] == s.subrange(start, i));
        assert(joined(pieces) =~= s.subrange(start, s.len() as int));
    } else {
        lemma_joined_split(s, start, i + 1);
    }
}

proof fn lemma_pieces(s: Seq<u8>, start: int, i: int)
    requires
        0 <= start <= i <= s.len(),
        forall|j: int|
            start <= j < i && j + 1 < s.len() ==> !(#[trigger] s[j] == LINE_FEED && s[j + 1]
                == LINE_FEED),
    ensures
        forall|k: int|
            0 <= k < split_from(s, start, i).len() ==> !holds_separator(
                #[trigger] split_from(s, start, i)[k],
            ),
        forall|k: int|
            0 <= k < split_from(s, start, i).len() - 1 ==> (#[trigger] split_from(s, start, i)[k]).len()
                == 0 || split_from(s, start, i)[k].last() != LINE_FEED,
    decreases s.len() - i,
{
    let pieces = split_from(s, start, i);
    if i + 1 >= s.len() {
        let piece = s.subrange(start, s.len() as int);
        if holds_separator(piece) {
            let j = choose|j: int|
                0 <= j && j + 1 < piece.len() && #[trigger] piece[j] == LINE_FEED && piece[j + 1]
                    == LINE_FEED;
            assert(s[start + j] == LINE_FEED && s[start + j + 1] == LINE_FEED);
        }
        assert(pieces =~= seq![piece]);
    } else if s[i] == LINE_FEED && s[i + 1] == LINE_FEED {
        lemma_pieces(s, i + 2, i + 2);
        let piece = s.subrange(start, i);
        let rest = split_from(s, i + 2, i + 2);
        assert(pieces == seq![piece] + rest);
        if holds_separator(piece) {
            let j = choose|j: int|
                0 <= j && j + 1 < piece.len() && #[trigger] piece[j] == LINE_FEED && piece[j + 1]
                    == LINE_FEED;
            assert(s[start + j] == LINE_FEED && s[start + j + 1] == LINE_FEED);
        }
        if piece.len() > 0 {
            assert(piece.last() == s[i - 1]);
            assert(!(s[i - 1] == LINE_FEED && s[i - 1 + 1] == LINE_FEED));
        }
        assert forall|k: int| 0 <= k < pieces.len() implies !holds_separator(
            #[trigger] pieces[k],
        ) by {
            if k > 0 {
                assert(pieces[k] == rest[k - 1]);
            }
        }
        assert forall|k: int| 0 <= k < pieces.len() - 1 implies (#[trigger] pieces[k]).len() == 0
            || pieces[k].last() != LINE_FEED by {
            if k > 0 {
                assert(pieces[k] == rest[k - 1]);
            }
        }
    } else {
        lemma_pieces(s, start, i + 1);
        assert(pieces == split_from(s, start, i + 1));
    }
}

/// Splitting loses nothing: the pieces, put together again with a blank line
/// between each two, are the text that was split.
pub proof fn split_joins_back(s: Seq<u8>)
    ensures
        split_events(s).len() >= 1,
        joined(split_events(s)) == s,
{
    lemma_split_is_not_empty(s, 0, 0);
    lemma_joined_split(s, 0, 0);
    assert(s.subrange(0, s.len() as int) =~= s);
}

/// Splitting cuts at every blank line, at the leftmost first: no piece holds
/// a blank line, and no piece but the last ends in a line feed.
pub proof fn split_cuts_at_every_blank_line(s: Seq<u8>)
    ensures
        forall|k: int|
            0 <= k < split_events(s).len() ==> !holds_separator(#[trigger] split_events(s)[k]),
        forall|k: int|
            0 <= k < split_events(s).len() - 1 ==> (#[trigger] split_events(s)[k]).len() == 0
                || split_events(s)[k].last() != LINE_FEED,
{
    lemma_pieces(s, 0, 0);
}

proof fn lemma_content_start(s: Seq<u8>, i: int)
    requires
        0 <= i <= s.len(),
    ensures
        i <= content_start(s, i) <= s.len(),
        space_at(s, content_start(s, i)) == 0,
        is_space_run(s.subrange(i, content_start(s, i))),
    decreases s.len() - i,
{
    let w = space_at(s, i);
    if w > 0 {
        lemma_content_start(s, i + w);
        let lo = content_start(s, i);
        let run = s.subrange(i, lo);
        assert(run.len() >= w);
        assert(space_at(run, 0) == w) by {
            assert(run[0] == s[i]);
            if w >= 2 {
                assert(run[1] == s[i + 1]);
            }
            if w >= 3 {
                assert(run[2] == s[i + 2]);
            }
        }
        assert(run.skip(w) =~= s.subrange(i + w, lo));
    } else {
        assert(s.subrange(i, i).len() == 0);
    }
}

proof fn lemma_content_end(s: Seq<u8>, lo: int, j: int)
    requires
        0 <= lo <= j <= s.len(),
    ensures
        lo <= content_end(s, lo, j) <= j,
        space_before(s, lo, content_end(s, lo, j)) == 0,
        is_space_run_back(s.subrange(content_end(s, lo, j), j)),
    decreases j - lo,
{
    let w = space_before(s, lo, j);
    if w > 0 {
        lemma_content_end(s, lo, j - w);
        let hi = content_end(s, lo, j);
        let run = s.subrange(hi, j);
        let n = run.len() as int;
        assert(n >= w);
        assert(space_before(run, 0, n) == w) by {
            assert(run[n - 1] == s[j - 1]);
            if n >= 2 {
                assert(run[n - 2] == s[j - 2]);
            }
            if n >= 3 {
                assert(run[n - 3] == s[j - 3]);
            }
        }
        assert(run.take(n - w) =~= s.subrange(hi, j - w));
    } else {
        assert(s.subrange(j, j).len() == 0);
    }
}

/// Trimming takes white space, and only white space, from both ends: what is
/// cut off in front is a run of white-space characters, so is what is cut off
/// behind, and what is left neither starts nor ends with one.
pub proof fn trim_takes_outer_white_space(s: Seq<u8>)
    ensures
        ({
            let lo = content_start(s, 0);
            let hi = content_end(s, lo, s.len() as int);
            &&& 0 <= lo <= hi <= s.len()
            &&& trimmed(s) == s.subrange(lo, hi)
            &&& is_space_run(s.subrange(0, lo))
            &&& is_space_run_back(s.subrange(hi, s.len() as int))
            &&& space_at(trimmed(s), 0) == 0
            &&& space_before(trimmed(s), 0, trimmed(s).len() as int) == 0
        }),
{
    let lo = content_start(s, 0);
    lemma_content_start(s, 0);
    let hi = content_end(s, lo, s.len() as int);
    lemma_content_end(s, lo, s.len() as int);
    let t = trimmed(s);
    let n = t.len() as int;
    assert(space_at(t, 0) == 0) by {
        if n >= 1 {
            assert(t[0] == s[lo]);
        }
        if n >= 2 {
            assert(t[1] == s[lo + 1]);
        }
        if n >= 3 {
            assert(t[2] == s[lo + 2]);
        }
    }
    assert(space_before(t, 0, n) == 0) by {
        if n >= 1 {
            assert(t[n - 1] == s[hi - 1]);
        }
        if n >= 2 {
            assert(t[n - 2] == s[hi - 2]);
        }
        if n >= 3 {
            assert(t[n - 3] == s[hi - 3]);
        }
    }
}

/// A text that neither starts nor ends with a white-space character is left
/// as it is.
pub proof fn trim_keeps_clean_text(s: Seq<u8>)
    requires
        space_at(s, 0) == 0,
        space_before(s, 0, s.len() as int) == 0,
    ensures
        trimmed(s) == s,
{
    assert(s.subrange(0, s.len() as int) =~= s);
}

} // verus!
