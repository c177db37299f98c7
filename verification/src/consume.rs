use vstd::prelude::*;

use crate::hex::is_digit_of_base;
use crate::span::Span;

verus! {

/// The scanning cursor: the whole source buffer together with the offset of
/// the first byte not yet consumed. Consuming never changes the buffer, only
/// the offset, so spans handed out earlier stay valid.
pub struct Cursor {
    pub src: Vec<u8>,
    pub pos: usize,
}

/// Whether the bytes of `w` appear in `s` starting at offset `i`.
pub open spec fn starts_with_at(s: Seq<u8>, i: int, w: Seq<u8>) -> bool {
    0 <= i && i + w.len() <= s.len() && s.subrange(i, i + w.len()) == w
}

/// Whether the byte at offset `i` is ASCII and one of `chars`.
pub open spec fn one_of_matches(s: Seq<u8>, i: int, chars: Seq<u8>) -> bool {
    0 <= i < s.len() && s[i] < 128 && chars.contains(s[i])
}

/// Whether the byte at offset `i` is exactly `c`.
pub open spec fn one_byte_matches(s: Seq<u8>, i: int, c: u8) -> bool {
    0 <= i < s.len() && s[i] == c
}

/// Whether the byte can appear in an identifier: the first byte must be a
/// letter or an underscore, later bytes may also be digits.
pub open spec fn is_identifier_char(b: u8, start: bool) -> bool {
    ('a' as u8) <= b <= ('z' as u8) || ('A' as u8) <= b <= ('Z' as u8) || b == ('_' as u8) || (
    !start && ('0' as u8) <= b <= ('9' as u8))
}

/// A byte predicate for maximal-run scanning. Only ASCII bytes can satisfy
/// any of these; a run always stops at the first non-ASCII byte.
#[derive(Clone, Copy, Debug)]
pub enum CharPred {
    /// A digit of the given base, as `digit_value` reads digits.
    Digit(u32),
    /// A continuing identifier byte: letter, digit or underscore.
    IdentifierChar,
    /// Exactly the given ASCII byte.
    Is(u8),
    /// Any ASCII byte other than the given one.
    IsNot(u8),
}

pub open spec fn pred_holds(p: CharPred, b: u8) -> bool {
    b < 128 && match p {
        CharPred::Digit(base) => is_digit_of_base(b, base),
        CharPred::IdentifierChar => is_identifier_char(b, false),
        CharPred::Is(c) => b == c,
        CharPred::IsNot(c) => b != c,
    }
}

/// The offset where a maximal run of bytes satisfying `p`, starting at `i`,
/// stops.
pub open spec fn while_stop(s: Seq<u8>, i: int, p: CharPred) -> int
    decreases s.len() - i,
{
    if 0 <= i < s.len() && pred_holds(p, s[i]) {
        while_stop(s, i + 1, p)
    } else {
        i
    }
}

pub proof fn lemma_while_stop(s: Seq<u8>, i: int, p: CharPred)
    requires
        0 <= i <= s.len(),
    ensures
        i <= while_stop(s, i, p) <= s.len(),
        forall|k: int| i <= k < while_stop(s, i, p) ==> pred_holds(p, s[k]),
        while_stop(s, i, p) == s.len() || !pred_holds(p, s[while_stop(s, i, p)]),
    decreases s.len() - i,
{
    if 0 <= i < s.len() && pred_holds(p, s[i]) {
        lemma_while_stop(s, i + 1, p);
    }
}

/// Zero-copy scanning primitives over a byte cursor: consume a fixed length,
/// an exact literal, one byte of a set, or a maximal run matching a
/// predicate. Each returns the consumed range as a span.
pub trait Consume: Sized {
    spec fn bytes(&self) -> Seq<u8>;

    spec fn cur(&self) -> int;

    /// Removes the next `n` bytes; asking for more than remains is a defect,
    /// not a parse error.
    fn consume_n(&mut self, n: usize) -> (r: Span)
        requires
            old(self).cur() + n <= old(self).bytes().len(),
            0 <= old(self).cur(),
        ensures
            final(self).bytes() == old(self).bytes(),
            final(self).cur() == old(self).cur() + n,
            r.start == old(self).cur() && r.end == final(self).cur(),
    ;

    /// Consumes `what` if the remaining input starts with it; otherwise no
    /// effect.
    fn consume(&mut self, what: &[u8]) -> (r: Option<Span>)
        ensures
            final(self).bytes() == old(self).bytes(),
            starts_with_at(old(self).bytes(), old(self).cur(), what@) ==> {
                &&& final(self).cur() == old(self).cur() + what@.len()
                &&& r == Some(Span {
                    start: old(self).cur() as usize,
                    end: (old(self).cur() + what@.len()) as usize,
                })
            },
            !starts_with_at(old(self).bytes(), old(self).cur(), what@) ==> {
                &&& final(self).cur() == old(self).cur()
                &&& r is None
            },
    ;

    /// Consumes one byte if it is ASCII and in `chars`; non-ASCII leading
    /// bytes never match.
    fn consume_one_of(&mut self, chars: &[u8]) -> (r: Option<Span>)
        ensures
            final(self).bytes() == old(self).bytes(),
            one_of_matches(old(self).bytes(), old(self).cur(), chars@) ==> {
                &&& final(self).cur() == old(self).cur() + 1
                &&& r == Some(Span {
                    start: old(self).cur() as usize,
                    end: (old(self).cur() + 1) as usize,
                })
            },
            !one_of_matches(old(self).bytes(), old(self).cur(), chars@) ==> {
                &&& final(self).cur() == old(self).cur()
                &&& r is None
            },
    ;

    /// Consumes the maximal prefix of ASCII bytes satisfying `p`.
    fn consume_while(&mut self, p: CharPred) -> (r: Span)
        ensures
            final(self).bytes() == old(self).bytes(),
            final(self).cur() == while_stop(old(self).bytes(), old(self).cur(), p),
            old(self).cur() <= final(self).cur(),
            old(self).cur() <= old(self).bytes().len() ==> final(self).cur() <= final(self).bytes().len(),
            r.start == old(self).cur() && r.end == final(self).cur(),
    ;
}

impl Cursor {
    pub fn new(src: Vec<u8>) -> (r: Cursor)
        ensures
            r.src == src,
            r.pos == 0,
    {
        Cursor { src, pos: 0 }
    }

    /// The bytes not yet consumed, as a fresh copy; meant for inspection.
    pub fn rest(&self) -> (r: Vec<u8>)
        requires
            self.pos <= self.src.len(),
        ensures
            r@ == self.src@.subrange(self.pos as int, self.src@.len() as int),
    {
        let mut r: Vec<u8> = Vec::new();
        let mut k = self.pos;
        while k < self.src.len()
            invariant
                self.pos <= k <= self.src.len(),
                r@ == self.src@.subrange(self.pos as int, k as int),
            decreases self.src.len() - k,
        {
            r.push(self.src[k]);
            proof {
                assert(r@ =~= self.src@.subrange(self.pos as int, k + 1));
            }
            k = k + 1;
        }
        proof {
            assert(r@ =~= self.src@.subrange(self.pos as int, self.src@.len() as int));
        }
        r
    }

    /// Whether any input remains.
    pub fn is_empty(&self) -> (r: bool)
        ensures
            r == (self.cur() >= self.bytes().len()),
    {
        self.pos >= self.src.len()
    }

    /// Consumes the next byte if it is exactly `c`.
    pub fn consume_byte(&mut self, c: u8) -> (r: Option<Span>)
        ensures
            final(self).src@ == old(self).src@,
            one_byte_matches(old(self).src@, old(self).pos as int, c) ==> {
                &&& final(self).pos == old(self).pos + 1
                &&& r == Some(Span { start: old(self).pos, end: (old(self).pos + 1) as usize })
            },
            !one_byte_matches(old(self).src@, old(self).pos as int, c) ==> {
                &&& final(self).pos == old(self).pos
                &&& r is None
            },
    {
        if self.pos < self.src.len() && self.src[self.pos] == c {
            let start = self.pos;
            self.pos = self.pos + 1;
            Some(Span { start, end: self.pos })
        } else {
            None
        }
    }

    /// The next byte, if any remains.
    pub fn peek(&self) -> (r: Option<u8>)
        ensures
            self.cur() < self.bytes().len() ==> r == Some(self.bytes()[self.cur()]),
            self.cur() >= self.bytes().len() ==> r is None,
    {
        if self.pos < self.src.len() {
            Some(self.src[self.pos])
        } else {
            None
        }
    }

    fn pred_matches(p: CharPred, b: u8) -> (r: bool)
        ensures
            r == pred_holds(p, b),
    {
        if b >= 128 {
            return false;
        }
        match p {
            CharPred::Digit(base) => match crate::hex::digit_value(b as char) {
                Ok(v) => (v as u32) < base,
                Err(_) => false,
            },
            CharPred::IdentifierChar => (('a' as u8) <= b && b <= ('z' as u8)) || (('A' as u8) <= b
                && b <= ('Z' as u8)) || b == ('_' as u8) || (('0' as u8) <= b && b <= ('9' as u8)),
            CharPred::Is(c) => b == c,
            CharPred::IsNot(c) => b != c,
        }
    }
}

impl Consume for Cursor {
    open spec fn bytes(&self) -> Seq<u8> {
        self.src@
    }

    open spec fn cur(&self) -> int {
        self.pos as int
    }

    fn consume_n(&mut self, n: usize) -> (r: Span) {
        let len: usize = self.src.len();
        proof {
            assert(self.pos + n <= len);
        }
        let start = self.pos;
        self.pos = self.pos + n;
        Span { start, end: self.pos }
    }

    fn consume(&mut self, what: &[u8]) -> (r: Option<Span>) {
        if what.len() > self.src.len() || self.pos > self.src.len() - what.len() {
            proof {
                assert(!starts_with_at(self.bytes(), self.cur(), what@));
            }
            return None;
        }
        let slen: usize = self.src.len();
        let ghost s = self.src@;
        let ghost i = self.pos as int;
        let mut k: usize = 0;
        while k < what.len()
            invariant
                0 <= k <= what@.len(),
                i + what@.len() <= s.len(),
                0 <= i,
                s.len() <= usize::MAX,
                self.src@ == s,
                self.pos == i,
                self == old(self),
                forall|j: int| 0 <= j < k ==> s[i + j] == what@[j],
            decreases what.len() - k,
        {
            if self.src[self.pos + k] != what[k] {
                proof {
                    let w = s.subrange(i, i + what@.len());
                    assert(w[k as int] == s[i + k]);
                    assert(!starts_with_at(s, i, what@));
                }
                return None;
            }
            k = k + 1;
        }
        proof {
            assert(s.subrange(i, i + what@.len()) =~= what@);
        }
        Some(self.consume_n(what.len()))
    }

    fn consume_one_of(&mut self, chars: &[u8]) -> (r: Option<Span>) {
        if self.pos >= self.src.len() {
            return None;
        }
        let b = self.src[self.pos];
        if b >= 128 {
            return None;
        }
        let mut k: usize = 0;
        while k < chars.len()
            invariant
                0 <= k <= chars@.len(),
                forall|j: int| 0 <= j < k ==> chars@[j] != b,
                self == old(self),
                b == self.src@[self.pos as int],
                self.pos < self.src@.len(),
                b < 128,
            decreases chars.len() - k,
        {
            if chars[k] == b {
                proof {
                    assert(chars@[k as int] == b);
                    assert(chars@.contains(b));
                }
                return Some(self.consume_n(1));
            }
            k = k + 1;
        }
        proof {
            assert(!chars@.contains(b));
        }
        None
    }

    fn consume_while(&mut self, p: CharPred) -> (r: Span) {
        let start = self.pos;
        let ghost s = self.src@;
        while self.pos < self.src.len() && Self::pred_matches(p, self.src[self.pos])
            invariant
                self.src@ == s,
                s == old(self).src@,
                start == old(self).pos,
                start <= self.pos,
                start <= s.len() ==> self.pos <= s.len(),
                while_stop(s, start as int, p) == while_stop(s, self.pos as int, p),
            decreases s.len() - self.pos,
        {
            self.pos = self.pos + 1;
        }
        Span { start, end: self.pos }
    }
}

} // verus!
