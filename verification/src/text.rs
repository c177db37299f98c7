use vstd::prelude::*;

use crate::span::Span;

verus! {

/// Relies on String::push: it appends exactly the one given character.
#[verifier::external_body]
pub(crate) fn push_char(s: &mut String, c: char)
    ensures
        final(s)@ == old(s)@.push(c),
{
    s.push(c);
}

/// The text of a span, read byte for byte as characters. Spans are only ever
/// laid over ASCII tokens, where a byte is a character; a span that does not
/// fit the buffer reads as empty.
pub open spec fn span_chars(s: Seq<u8>, sp: Span) -> Seq<char> {
    if sp.start <= sp.end <= s.len() {
        Seq::new((sp.end - sp.start) as nat, |k: int| s[sp.start + k] as char)
    } else {
        Seq::empty()
    }
}

/// Resolves a span to its text, for display in diagnostics.
pub fn span_to_string(src: &Vec<u8>, sp: Span) -> (r: String)
    ensures
        r@ == span_chars(src@, sp),
{
    let mut r = String::new();
    if sp.start <= sp.end && sp.end <= src.len() {
        let mut k = sp.start;
        while k < sp.end
            invariant
                sp.start <= k <= sp.end <= src@.len(),
                r@ == Seq::new((k - sp.start) as nat, |j: int| src@[sp.start + j] as char),
            decreases sp.end - k,
        {
            push_char(&mut r, src[k] as char);
            k = k + 1;
            proof {
                assert(r@ =~= Seq::new((k - sp.start) as nat, |j: int| src@[sp.start + j] as char));
            }
        }
        proof {
            assert(r@ =~= span_chars(src@, sp));
        }
    } else {
        proof {
            assert(r@ =~= span_chars(src@, sp));
        }
    }
    r
}

} // verus!
