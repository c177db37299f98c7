use vstd::prelude::*;

use crate::consume::Cursor;
use crate::error::{Error, ErrorView, Message, MessageView, error};
use crate::span::Span;
use crate::text::{push_char, span_chars, span_to_string};
use crate::whitespace::{skip_whitespace, spec_skip};

verus! {

/// Maps a `Result` whose error is an `Error` to one whose error is the
/// error's view.
pub open spec fn result_view<T>(r: Result<T, Error>) -> Result<T, ErrorView> {
    match r {
        Ok(t) => Ok(t),
        Err(e) => Err(e@),
    }
}

/// Determines until what point should be parsed.
/// A value of this type is given to the `parse_*` functions.
#[derive(Clone, Copy, Debug)]
pub enum End {
    /// Don't stop until the end of the file is reached.
    EndOfFile,
    /// Only stop when this specific byte is found.
    Specific(u8),
    /// Only stop when these brackets are matched.
    ///
    /// `MatchingBracket(open_span, close)` looks for the byte `close` to
    /// match the opening bracket whose source text `open_span` covers.
    MatchingBracket(Span, u8),
    /// Stop at either a comma, semicolon, or newline.
    ElementEnd,
}

impl End {
    /// Whether whitespace skipping ahead of this end may eat newlines: an
    /// element end's own terminator can be a bare newline and must not be
    /// pre-consumed.
    pub open spec fn spec_skips_newlines(self) -> bool {
        !(self is ElementEnd)
    }

    /// Whether this end stands at offset `i` of the source.
    pub open spec fn spec_matches(self, s: Seq<u8>, i: int) -> bool {
        match self {
            End::EndOfFile => i >= s.len(),
            End::Specific(c) => 0 <= i < s.len() && s[i] == c,
            End::MatchingBracket(_, c) => 0 <= i < s.len() && s[i] == c,
            End::ElementEnd => 0 <= i < s.len() && (s[i] == (',' as u8) || s[i] == (';' as u8)
                || s[i] == ('\n' as u8)),
        }
    }

    /// How many bytes matching this end consumes.
    pub open spec fn spec_consumed_len(self) -> int {
        match self {
            End::EndOfFile => 0,
            _ => 1,
        }
    }

    pub open spec fn spec_description(self) -> Seq<char> {
        match self {
            End::EndOfFile => "end of file"@,
            End::Specific(c) => "`"@ + seq![c as char] + "'"@,
            End::MatchingBracket(_, c) => "`"@ + seq![c as char] + "'"@,
            End::ElementEnd => "newline or `,` or `;'"@,
        }
    }

    /// The diagnostic given when this end was required but the input ran out:
    /// for a bracket, a note points back at the opening bracket.
    pub open spec fn spec_error(self, s: Seq<u8>, i: int) -> ErrorView {
        let text = "expected "@ + self.spec_description();
        let here = Span { start: i as usize, end: i as usize };
        match self {
            End::MatchingBracket(open, _) => crate::error::spec_error_with_note(
                text,
                here,
                "... to match this `"@ + span_chars(s, open) + "'"@,
                open,
            ),
            _ => crate::error::spec_error(text, here),
        }
    }

    /// What `parse` returns and where it leaves the cursor: whitespace is
    /// skipped, then the end either matches (and is consumed), or more input
    /// follows, or the input is exhausted, which is an error for every end
    /// but the end of the file itself.
    pub open spec fn spec_parse(self, s: Seq<u8>, i: int) -> (Result<bool, ErrorView>, int) {
        let p = spec_skip(s, i, self.spec_skips_newlines());
        if self.spec_matches(s, p) {
            (Ok(true), p + self.spec_consumed_len())
        } else if p >= s.len() {
            (Err(self.spec_error(s, p)), p)
        } else {
            (Ok(false), p)
        }
    }

    fn consume(&self, source: &mut Cursor) -> (r: bool)
        ensures
            final(source).src@ == old(source).src@,
            r == self.spec_matches(old(source).src@, old(source).pos as int),
            r ==> final(source).pos == old(source).pos + self.spec_consumed_len(),
            !r ==> final(source).pos == old(source).pos,
    {
        match *self {
            End::EndOfFile => source.is_empty(),
            End::Specific(c) | End::MatchingBracket(_, c) => {
                if source.pos < source.src.len() && source.src[source.pos] == c {
                    source.pos = source.pos + 1;
                    true
                } else {
                    false
                }
            },
            End::ElementEnd => {
                if source.pos < source.src.len() {
                    let b = source.src[source.pos];
                    if b == (',' as u8) || b == (';' as u8) || b == ('\n' as u8) {
                        source.pos = source.pos + 1;
                        true
                    } else {
                        false
                    }
                } else {
                    false
                }
            },
        }
    }

    fn matches(&self, source: &Cursor) -> (r: bool)
        ensures
            r == self.spec_matches(source.src@, source.pos as int),
    {
        match *self {
            End::EndOfFile => source.is_empty(),
            End::Specific(c) | End::MatchingBracket(_, c) => source.pos < source.src.len()
                && source.src[source.pos] == c,
            End::ElementEnd => {
                if source.pos < source.src.len() {
                    let b = source.src[source.pos];
                    b == (',' as u8) || b == (';' as u8) || b == ('\n' as u8)
                } else {
                    false
                }
            },
        }
    }

    /// A human-readable description of what this `End` matches.
    /// Useful for in error messages.
    pub fn description(&self) -> (r: String)
        ensures
            r@ == self.spec_description(),
    {
        match *self {
            End::EndOfFile => String::from_str("end of file"),
            End::Specific(c) | End::MatchingBracket(_, c) => {
                let mut d = String::from_str("`");
                push_char(&mut d, c as char);
                d.append("'");
                proof {
                    assert(d@ =~= "`"@ + seq![c as char] + "'"@);
                }
                d
            },
            End::ElementEnd => String::from_str("newline or `,` or `;'"),
        }
    }

    fn error(&self, source: &Cursor) -> (e: Error)
        ensures
            e@ == self.spec_error(source.src@, source.pos as int),
    {
        let mut msg = String::from_str("expected ");
        let desc = self.description();
        msg.append(desc.as_str());
        let mut e = error(Span::at(source.pos), msg);
        if let End::MatchingBracket(open, _) = *self {
            let mut note = String::from_str("... to match this `");
            let open_text = span_to_string(&source.src, open);
            note.append(open_text.as_str());
            note.append("'");
            e.notes.push(Message { message: note, location: Some(open) });
            proof {
                assert(e@.notes =~= seq![
                    MessageView {
                        message: "... to match this `"@ + span_chars(source.src@, open) + "'"@,
                        location: Some(open),
                    },
                ]);
            }
        }
        e
    }

    /// Check if we reached this `End` yet.
    ///
    /// First eats whitespace, and then tries to match.
    ///
    /// If the end of the file is reached, and this is not an `End::EndOfFile`,
    /// an error is given.
    pub fn parse(&self, source: &mut Cursor) -> (r: Result<bool, Error>)
        ensures
            final(source).src@ == old(source).src@,
            result_view(r) == self.spec_parse(old(source).src@, old(source).pos as int).0,
            final(source).pos == self.spec_parse(old(source).src@, old(source).pos as int).1,
            old(source).pos <= final(source).pos,
            old(source).pos <= old(source).src@.len() ==> final(source).pos <= final(source).src@.len(),
    {
        let skip_newlines = match self {
            End::ElementEnd => false,
            _ => true,
        };
        skip_whitespace(source, skip_newlines);
        let did_match = self.consume(source);
        if !did_match && source.is_empty() {
            Err(self.error(source))
        } else {
            Ok(did_match)
        }
    }

    pub fn or_before(self, or_before: Self) -> (r: OptionalEnd)
        ensures
            r == (OptionalEnd { end: self, or_before: Some(or_before) }),
    {
        OptionalEnd { end: self, or_before: Some(or_before) }
    }

    pub fn as_optional(self) -> (r: OptionalEnd)
        ensures
            r == (OptionalEnd { end: self, or_before: None }),
    {
        OptionalEnd { end: self, or_before: None }
    }
}

/// An `End` together with one non-consuming fallback: the fallback only
/// distinguishes "more input, not yet at this end" from "a true end reached",
/// so that a list element may stop at a comma or, without consuming it, at
/// the enclosing closing bracket.
#[derive(Clone, Copy, Debug)]
pub struct OptionalEnd {
    pub end: End,
    pub or_before: Option<End>,
}

impl OptionalEnd {
    pub open spec fn spec_fallback_matches(self, s: Seq<u8>, i: int) -> bool {
        match self.or_before {
            Some(e) => e.spec_matches(s, i),
            None => false,
        }
    }

    pub open spec fn spec_description(self) -> Seq<char> {
        match self.or_before {
            Some(e) => self.end.spec_description() + " or "@ + e.spec_description(),
            None => self.end.spec_description(),
        }
    }

    pub open spec fn spec_error(self, s: Seq<u8>, i: int) -> ErrorView {
        match self.or_before {
            None => self.end.spec_error(s, i),
            Some(_) => crate::error::spec_error(
                "expected "@ + self.spec_description(),
                Span { start: i as usize, end: i as usize },
            ),
        }
    }

    /// What `parse` returns and where it leaves the cursor: as for `End`,
    /// except that the fallback end also counts as a match, without being
    /// consumed.
    pub open spec fn spec_parse(self, s: Seq<u8>, i: int) -> (Result<bool, ErrorView>, int) {
        let p = spec_skip(s, i, self.end.spec_skips_newlines());
        if self.end.spec_matches(s, p) {
            (Ok(true), p + self.end.spec_consumed_len())
        } else if self.spec_fallback_matches(s, p) {
            (Ok(true), p)
        } else if p >= s.len() {
            (Err(self.spec_error(s, p)), p)
        } else {
            (Ok(false), p)
        }
    }

    pub fn parse(&self, source: &mut Cursor) -> (r: Result<bool, Error>)
        ensures
            final(source).src@ == old(source).src@,
            result_view(r) == self.spec_parse(old(source).src@, old(source).pos as int).0,
            final(source).pos == self.spec_parse(old(source).src@, old(source).pos as int).1,
            old(source).pos <= final(source).pos,
            old(source).pos <= old(source).src@.len() ==> final(source).pos <= final(source).src@.len(),
    {
        let skip_newlines = match self.end {
            End::ElementEnd => false,
            _ => true,
        };
        skip_whitespace(source, skip_newlines);
        let mut did_match = self.end.consume(source);
        if !did_match {
            if let Some(e) = &self.or_before {
                did_match = e.matches(source);
            }
        }
        if !did_match && source.is_empty() {
            Err(self.error(source))
        } else {
            Ok(did_match)
        }
    }

    pub fn description(&self) -> (r: String)
        ensures
            r@ == self.spec_description(),
    {
        let mut desc = self.end.description();
        if let Some(e) = &self.or_before {
            desc.append(" or ");
            let other = e.description();
            desc.append(other.as_str());
        }
        desc
    }

    fn error(&self, source: &Cursor) -> (e: Error)
        ensures
            e@ == self.spec_error(source.src@, source.pos as int),
    {
        match &self.or_before {
            None => self.end.error(source),
            Some(_) => {
                let mut msg = String::from_str("expected ");
                let desc = self.description();
                msg.append(desc.as_str());
                error(Span::at(source.pos), msg)
            },
        }
    }
}

} // verus!
