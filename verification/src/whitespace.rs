use vstd::prelude::*;

use crate::consume::Cursor;

verus! {

/// Whether the byte is skippable whitespace: space, tab, carriage return, and
/// a line feed only when newlines are being skipped.
pub open spec fn is_skippable_ws(b: u8, skip_newlines: bool) -> bool {
    b == (' ' as u8) || b == ('\t' as u8) || b == ('\r' as u8) || (skip_newlines && b == (
    '\n' as u8))
}

/// The offset where the whitespace run starting at `i` stops.
pub open spec fn ws_end(s: Seq<u8>, i: int, skip_newlines: bool) -> int
    decreases s.len() - i,
{
    if 0 <= i < s.len() && is_skippable_ws(s[i], skip_newlines) {
        ws_end(s, i + 1, skip_newlines)
    } else {
        i
    }
}

/// The offset of the next line feed at or after `i`, or the end of the input:
/// a `#` comment runs through but not including it.
pub open spec fn comment_end(s: Seq<u8>, i: int) -> int
    decreases s.len() - i,
{
    if 0 <= i < s.len() && s[i] != ('\n' as u8) {
        comment_end(s, i + 1)
    } else {
        i
    }
}

pub proof fn lemma_ws_end(s: Seq<u8>, i: int, skip_newlines: bool)
    ensures
        i <= ws_end(s, i, skip_newlines),
        i <= s.len() ==> ws_end(s, i, skip_newlines) <= s.len(),
    decreases s.len() - i,
{
    if 0 <= i < s.len() && is_skippable_ws(s[i], skip_newlines) {
        lemma_ws_end(s, i + 1, skip_newlines);
    }
}

pub proof fn lemma_comment_end(s: Seq<u8>, i: int)
    ensures
        i <= comment_end(s, i),
        i <= s.len() ==> comment_end(s, i) <= s.len(),
    decreases s.len() - i,
{
    if 0 <= i < s.len() && s[i] != ('\n' as u8) {
        lemma_comment_end(s, i + 1);
    }
}

/// The offset where skipping stops when whitespace runs and `#` comments are
/// stripped repeatedly, starting at `i`.
pub open spec fn spec_skip(s: Seq<u8>, i: int, skip_newlines: bool) -> int
    decreases s.len() - i,
        via spec_skip_decreases
{
    let j = ws_end(s, i, skip_newlines);
    if 0 <= j < s.len() && s[j] == ('#' as u8) {
        spec_skip(s, comment_end(s, j), skip_newlines)
    } else {
        j
    }
}

#[via_fn]
proof fn spec_skip_decreases(s: Seq<u8>, i: int, skip_newlines: bool) {
    let j = ws_end(s, i, skip_newlines);
    if 0 <= j < s.len() && s[j] == ('#' as u8) {
        lemma_ws_end(s, i, skip_newlines);
        lemma_comment_end(s, j + 1);
        assert(comment_end(s, j) == comment_end(s, j + 1));
    }
}

fn is_ws(b: u8, skip_newlines: bool) -> (r: bool)
    ensures
        r == is_skippable_ws(b, skip_newlines),
{
    b == (' ' as u8) || b == ('\t' as u8) || b == ('\r' as u8) || (skip_newlines && b == (
    '\n' as u8))
}

fn not_newline(b: u8) -> (r: bool)
    ensures
        r == (b != ('\n' as u8)),
{
    b != ('\n' as u8)
}

/// Strips whitespace runs and `#`-to-end-of-line comments, repeatedly, until
/// a byte that belongs to neither stands next (or the input ends). A comment
/// runs up to but not including its line feed.
pub fn skip_whitespace(source: &mut Cursor, skip_newlines: bool)
    ensures
        final(source).src@ == old(source).src@,
        final(source).pos == spec_skip(old(source).src@, old(source).pos as int, skip_newlines),
        old(source).pos <= final(source).pos,
        old(source).pos <= old(source).src@.len() ==> final(source).pos <= final(source).src@.len(),
{
    let ghost s = source.src@;
    let ghost p0 = source.pos as int;
    loop
        invariant
            source.src@ == s,
            s == old(source).src@,
            p0 == old(source).pos,
            p0 <= source.pos,
            p0 <= s.len() ==> source.pos <= s.len(),
            spec_skip(s, p0, skip_newlines) == spec_skip(s, source.pos as int, skip_newlines),
        decreases s.len() - source.pos + 1,
    {
        let ghost enter = source.pos as int;
        while source.pos < source.src.len() && is_ws(source.src[source.pos], skip_newlines)
            invariant
                source.src@ == s,
                enter <= source.pos,
                enter <= s.len() ==> source.pos <= s.len(),
                ws_end(s, enter, skip_newlines) == ws_end(s, source.pos as int, skip_newlines),
            decreases s.len() - source.pos,
        {
            source.pos = source.pos + 1;
        }
        proof {
            assert(ws_end(s, source.pos as int, skip_newlines) == source.pos as int);
        }
        if source.pos < source.src.len() && source.src[source.pos] == ('#' as u8) {
            let ghost j = source.pos as int;
            while source.pos < source.src.len() && not_newline(source.src[source.pos])
                invariant
                    source.src@ == s,
                    j <= source.pos,
                    source.pos <= s.len(),
                    comment_end(s, j) == comment_end(s, source.pos as int),
                decreases s.len() - source.pos,
            {
                source.pos = source.pos + 1;
            }
            proof {
                assert(comment_end(s, source.pos as int) == source.pos as int);
                assert(spec_skip(s, enter, skip_newlines) == spec_skip(
                    s,
                    source.pos as int,
                    skip_newlines,
                ));
            }
        } else {
            proof {
                assert(spec_skip(s, enter, skip_newlines) == source.pos as int);
            }
            return ;
        }
    }
}

} // verus!
