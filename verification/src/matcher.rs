use vstd::prelude::*;

use crate::consume::Cursor;
use crate::error::{Error, ErrorView, Message, MessageView};
use crate::span::Span;
use crate::text::{push_char, span_chars, span_to_string};
use crate::whitespace::{skip_whitespace, spec_skip};

verus! {

/// What a `Matcher` stops at.
#[derive(Clone, Copy, Debug)]
pub enum MatchMode {
    /// Matches nothing; only its fallback can match.
    Nothing,
    /// The end of the input.
    EndOfFile,
    /// A specific byte.
    Specific(u8),
    /// The closing byte of a bracket pair; the span points at the opening
    /// bracket, for the diagnostic's note.
    MatchingBracket(Span, u8),
    /// A comma, semicolon, or newline.
    ElementEnd,
}

impl MatchMode {
    pub open spec fn spec_matches(self, s: Seq<u8>, i: int) -> bool {
        match self {
            MatchMode::Nothing => false,
            MatchMode::EndOfFile => i >= s.len(),
            MatchMode::Specific(c) => 0 <= i < s.len() && s[i] == c,
            MatchMode::MatchingBracket(_, c) => 0 <= i < s.len() && s[i] == c,
            MatchMode::ElementEnd => 0 <= i < s.len() && (s[i] == (',' as u8) || s[i] == (
            ';' as u8) || s[i] == ('\n' as u8)),
        }
    }

    pub open spec fn spec_consumed_len(self) -> int {
        match self {
            MatchMode::Nothing => 0,
            MatchMode::EndOfFile => 0,
            MatchMode::Specific(_) => 1,
            MatchMode::MatchingBracket(_, _) => 1,
            MatchMode::ElementEnd => 1,
        }
    }

    pub open spec fn spec_description(self) -> Seq<char> {
        match self {
            MatchMode::Nothing => Seq::empty(),
            MatchMode::EndOfFile => "end of file"@,
            MatchMode::Specific(c) => "`"@ + seq![c as char] + "'"@,
            MatchMode::MatchingBracket(_, c) => "`"@ + seq![c as char] + "'"@,
            MatchMode::ElementEnd => "newline or `,` or `;'"@,
        }
    }
}

/// A delimiter matcher: a stop mode plus at most one chained fallback, which
/// is only ever tested without consuming, to tell "not yet at this end" from
/// "a true end reached".
pub struct Matcher {
    pub mode: MatchMode,
    pub or_before: Option<Box<Matcher>>,
}

impl Matcher {
    pub fn new(m: MatchMode) -> (r: Matcher)
        ensures
            r.mode == m,
            r.or_before is None,
    {
        Matcher { mode: m, or_before: None }
    }

    pub fn specific(s: u8) -> (r: Matcher)
        ensures
            r.mode == MatchMode::Specific(s),
            r.or_before is None,
    {
        Matcher { mode: MatchMode::Specific(s), or_before: None }
    }

    pub fn bracket(left: Span, right: u8) -> (r: Matcher)
        ensures
            r.mode == MatchMode::MatchingBracket(left, right),
            r.or_before is None,
    {
        Matcher { mode: MatchMode::MatchingBracket(left, right), or_before: None }
    }

    /// Where matching at offset `i` leads: the matched span (empty for a
    /// fallback match, which consumes nothing) and the offset after it.
    pub open spec fn spec_try_parse(self, s: Seq<u8>, i: int, eat_whitespace: bool) -> (
        Option<Span>,
        int,
    )
        decreases self,
    {
        let p = if eat_whitespace {
            spec_skip(s, i, !(self.mode is ElementEnd))
        } else {
            i
        };
        if self.mode.spec_matches(s, p) {
            (
                Some(
                    Span {
                        start: p as usize,
                        end: (p + self.mode.spec_consumed_len()) as usize,
                    },
                ),
                p + self.mode.spec_consumed_len(),
            )
        } else {
            match self.or_before {
                Some(b) => {
                    if b.spec_try_parse(s, p, false).0 is Some {
                        (Some(Span { start: p as usize, end: p as usize }), p)
                    } else {
                        (None, p)
                    }
                },
                None => (None, p),
            }
        }
    }

    fn try_parse(&self, source: &mut Cursor, eat_whitespace: bool) -> (r: Option<Span>)
        ensures
            final(source).src@ == old(source).src@,
            r == self.spec_try_parse(old(source).src@, old(source).pos as int, eat_whitespace).0,
            final(source).pos == self.spec_try_parse(
                old(source).src@,
                old(source).pos as int,
                eat_whitespace,
            ).1,
            old(source).pos <= final(source).pos,
            old(source).pos <= old(source).src@.len() ==> final(source).pos <= final(source).src@.len(),
        decreases *self,
    {
        if eat_whitespace {
            let skip_newlines = match self.mode {
                MatchMode::ElementEnd => false,
                _ => true,
            };
            skip_whitespace(source, skip_newlines);
        }
        match self.mode {
            MatchMode::Nothing => {},
            MatchMode::EndOfFile => {
                if source.is_empty() {
                    return Some(Span::at(source.pos));
                }
            },
            MatchMode::Specific(c) | MatchMode::MatchingBracket(_, c) => {
                if source.pos < source.src.len() && source.src[source.pos] == c {
                    let start = source.pos;
                    source.pos = source.pos + 1;
                    return Some(Span { start, end: source.pos });
                }
            },
            MatchMode::ElementEnd => {
                if source.pos < source.src.len() {
                    let b = source.src[source.pos];
                    if b == (',' as u8) || b == (';' as u8) || b == ('\n' as u8) {
                        let start = source.pos;
                        source.pos = source.pos + 1;
                        return Some(Span { start, end: source.pos });
                    }
                }
            },
        }
        if let Some(b) = &self.or_before {
            let saved = source.pos;
            let m = b.try_parse(source, false);
            source.pos = saved;
            if m.is_some() {
                return Some(Span::at(saved));
            }
        }
        None
    }

    fn parse(&self, source: &mut Cursor) -> (r: Result<Span, Error>)
        ensures
            final(source).src@ == old(source).src@,
            ({
                let (m, p) = self.spec_try_parse(old(source).src@, old(source).pos as int, true);
                &&& final(source).pos == p
                &&& crate::end::result_view(r) == match m {
                    Some(sp) => Ok::<Span, ErrorView>(sp),
                    None => Err(self.spec_error(old(source).src@, p)),
                }
            }),
    {
        match self.try_parse(source, true) {
            Some(sp) => Ok(sp),
            None => Err(self.error(source)),
        }
    }

    /// What `parse_end` returns and where it leaves the cursor: matched, not
    /// matched with more input following, or not matched with the input
    /// exhausted, which is an error.
    pub open spec fn spec_parse_end(self, s: Seq<u8>, i: int) -> (Result<bool, ErrorView>, int) {
        let (m, p) = self.spec_try_parse(s, i, true);
        match m {
            Some(_) => (Ok(true), p),
            None => if p >= s.len() {
                (Err(self.spec_error(s, p)), p)
            } else {
                (Ok(false), p)
            },
        }
    }

    pub fn parse_end(&self, source: &mut Cursor) -> (r: Result<bool, Error>)
        ensures
            final(source).src@ == old(source).src@,
            crate::end::result_view(r) == self.spec_parse_end(
                old(source).src@,
                old(source).pos as int,
            ).0,
            final(source).pos == self.spec_parse_end(old(source).src@, old(source).pos as int).1,
            old(source).pos <= final(source).pos,
            old(source).pos <= old(source).src@.len() ==> final(source).pos <= final(source).src@.len(),
    {
        match self.try_parse(source, true) {
            None => {
                if source.is_empty() {
                    Err(self.error(source))
                } else {
                    Ok(false)
                }
            },
            Some(_) => Ok(true),
        }
    }

    pub open spec fn spec_description(self) -> Seq<char>
        decreases self,
    {
        let d = self.mode.spec_description();
        match self.or_before {
            Some(b) => {
                if d.len() == 0 {
                    b.spec_description()
                } else {
                    d + " or "@ + b.spec_description()
                }
            },
            None => d,
        }
    }

    pub fn description(&self) -> (r: String)
        ensures
            r@ == self.spec_description(),
        decreases *self,
    {
        let mut desc = match self.mode {
            MatchMode::Nothing => String::new(),
            MatchMode::EndOfFile => String::from_str("end of file"),
            MatchMode::Specific(c) | MatchMode::MatchingBracket(_, c) => {
                let mut d = String::from_str("`");
                push_char(&mut d, c as char);
                d.append("'");
                proof {
                    assert(d@ =~= "`"@ + seq![c as char] + "'"@);
                }
                d
            },
            MatchMode::ElementEnd => String::from_str("newline or `,` or `;'"),
        };
        if let Some(b) = &self.or_before {
            if desc.as_str().is_empty() {
                desc = b.description();
            } else {
                desc.append(" or ");
                let other = b.description();
                desc.append(other.as_str());
            }
        }
        desc
    }

    /// The diagnostic for this matcher failing at offset `i`: its description
    /// as the message, and, for an unchained bracket matcher, a note at the
    /// opening bracket.
    pub open spec fn spec_error(self, s: Seq<u8>, i: int) -> ErrorView {
        ErrorView {
            message: MessageView {
                message: self.spec_description(),
                location: Some(Span { start: i as usize, end: i as usize }),
            },
            notes: match (self.mode, self.or_before) {
                (MatchMode::MatchingBracket(open, _), None) => seq![
                    MessageView {
                        message: "... to match this `"@ + span_chars(s, open) + "'"@,
                        location: Some(open),
                    },
                ],
                _ => Seq::empty(),
            },
        }
    }

    pub fn error(&self, source: &Cursor) -> (e: Error)
        ensures
            e@ == self.spec_error(source.src@, source.pos as int),
    {
        let mut notes: Vec<Message> = Vec::new();
        if self.or_before.is_none() {
            if let MatchMode::MatchingBracket(open, _) = self.mode {
                let mut note = String::from_str("... to match this `");
                let open_text = span_to_string(&source.src, open);
                note.append(open_text.as_str());
                note.append("'");
                notes.push(Message { message: note, location: Some(open) });
            }
        }
        let e = Error {
            message: Message { message: self.description(), location: Some(Span::at(source.pos)) },
            notes,
        };
        proof {
            assert(e@.notes =~= self.spec_error(source.src@, source.pos as int).notes);
        }
        e
    }

    /// Chains a fallback matcher; the matcher must not have one yet.
    pub fn or_before(self, or_before: Matcher) -> (r: Matcher)
        requires
            self.or_before is None,
        ensures
            r.mode == self.mode,
            r.or_before == Some(Box::new(or_before)),
    {
        Matcher { mode: self.mode, or_before: Some(Box::new(or_before)) }
    }
}

} // verus!
