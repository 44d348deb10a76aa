//! A character-level tokenizer for one line of comma-delimited text.
//!
//! A field is either quoted (its first character is `"`) or raw (anything
//! else).  A raw field runs to the next comma or to the end of the input and
//! may not contain a carriage return or a line feed.  Inside a quoted field a
//! backslash introduces one of the escapes `\n`, `\r`, `\t`; after the
//! closing quote only another `"` (a literal quote), a comma or the end of
//! the input may follow.  Any other shape is a decoding failure.

use vstd::prelude::*;
use vstd::std_specs::iter::IteratorSpec;

verus! {

/// The tokenizer's single, undifferentiated error: a field failed to decode.
#[derive(Debug, Clone, PartialEq, Eq)]
pub struct CsvError;

/// The outcome of decoding one field from the front of a character sequence:
/// the decoded text, how many input characters the field consumed and whether
/// a separator promises a further field; or a decoding failure together with
/// how many characters were consumed before it was detected.
#[verifier::ext_equal]
pub enum FieldStep {
    Value { text: Seq<char>, used: int, more: bool },
    Fail { used: int },
}

/// Decoding of a raw (unquoted) field from the front of `s`.
pub open spec fn raw_step(s: Seq<char>) -> FieldStep
    decreases s.len(),
{
    if s.len() == 0 {
        FieldStep::Value { text: Seq::empty(), used: 0, more: false }
    } else if s[0] == ',' {
        FieldStep::Value { text: Seq::empty(), used: 1, more: true }
    } else if s[0] == '\r' || s[0] == '\n' {
        FieldStep::Fail { used: 1 }
    } else {
        match raw_step(s.skip(1)) {
            FieldStep::Value { text, used, more } => FieldStep::Value {
                text: seq![s[0]].add(text),
                used: used + 1,
                more,
            },
            FieldStep::Fail { used } => FieldStep::Fail { used: used + 1 },
        }
    }
}

/// Decoding of the remainder of a quoted field: `s` starts right after the
/// opening quote (or after a decoded escape or literal character).
pub open spec fn quoted_step(s: Seq<char>) -> FieldStep
    decreases s.len(),
{
    if s.len() == 0 {
        // The closing quote is missing.
        FieldStep::Fail { used: 0 }
    } else if s[0] == '\r' || s[0] == '\n' {
        FieldStep::Fail { used: 1 }
    } else if s[0] == '"' {
        if s.len() == 1 {
            // End of input right after the closing quote: terminal field.
            FieldStep::Value { text: Seq::empty(), used: 1, more: false }
        } else if s[1] == '"' {
            // An escaped literal quote; the field goes on.
            match quoted_step(s.skip(2)) {
                FieldStep::Value { text, used, more } => FieldStep::Value {
                    text: seq!['"'].add(text),
                    used: used + 2,
                    more,
                },
                FieldStep::Fail { used } => FieldStep::Fail { used: used + 2 },
            }
        } else if s[1] == ',' {
            FieldStep::Value { text: Seq::empty(), used: 2, more: true }
        } else {
            // A bare character after the closing quote.
            FieldStep::Fail { used: 1 }
        }
    } else if s[0] == '\\' {
        if s.len() == 1 {
            FieldStep::Fail { used: 1 }
        } else if s[1] == 'n' || s[1] == 'r' || s[1] == 't' {
            match quoted_step(s.skip(2)) {
                FieldStep::Value { text, used, more } => FieldStep::Value {
                    text: seq![
                        if s[1] == 'n' {
                            '\n'
                        } else if s[1] == 'r' {
                            '\r'
                        } else {
                            '\t'
                        },
                    ].add(text),
                    used: used + 2,
                    more,
                },
                FieldStep::Fail { used } => FieldStep::Fail { used: used + 2 },
            }
        } else {
            FieldStep::Fail { used: 2 }
        }
    } else {
        match quoted_step(s.skip(1)) {
            FieldStep::Value { text, used, more } => FieldStep::Value {
                text: seq![s[0]].add(text),
                used: used + 1,
                more,
            },
            FieldStep::Fail { used } => FieldStep::Fail { used: used + 1 },
        }
    }
}

/// Decoding of one field, quoted or raw, from the front of `s`.
pub open spec fn field_step(s: Seq<char>) -> FieldStep {
    if s.len() > 0 && s[0] == '"' {
        match quoted_step(s.skip(1)) {
            FieldStep::Value { text, used, more } => FieldStep::Value {
                text,
                used: used + 1,
                more,
            },
            FieldStep::Fail { used } => FieldStep::Fail { used: used + 1 },
        }
    } else {
        raw_step(s)
    }
}

pub proof fn lemma_raw_step_bounds(s: Seq<char>)
    ensures
        match raw_step(s) {
            FieldStep::Value { text: _, used, more } => 0 <= used <= s.len() && (more ==> 1
                <= used) && (!more ==> used == s.len()),
            FieldStep::Fail { used } => 1 <= used <= s.len(),
        },
    decreases s.len(),
{
    if s.len() == 0 {
    } else if s[0] == ',' {
    } else if s[0] == '\r' || s[0] == '\n' {
    } else {
        lemma_raw_step_bounds(s.skip(1));
    }
}

pub proof fn lemma_quoted_step_bounds(s: Seq<char>)
    ensures
        match quoted_step(s) {
            FieldStep::Value { text: _, used, more } => 1 <= used <= s.len() && (more ==> 2
                <= used) && (!more ==> used == s.len()),
            FieldStep::Fail { used } => 0 <= used <= s.len(),
        },
    decreases s.len(),
{
    if s.len() == 0 {
    } else if s[0] == '\r' || s[0] == '\n' {
    } else if s[0] == '"' {
        if s.len() == 1 {
        } else if s[1] == '"' {
            lemma_quoted_step_bounds(s.skip(2));
        } else if s[1] == ',' {
        } else {
        }
    } else if s[0] == '\\' {
        if s.len() == 1 {
        } else if s[1] == 'n' || s[1] == 'r' || s[1] == 't' {
            lemma_quoted_step_bounds(s.skip(2));
        } else {
        }
    } else {
        lemma_quoted_step_bounds(s.skip(1));
    }
}

pub proof fn lemma_field_step_bounds(s: Seq<char>)
    ensures
        match field_step(s) {
            FieldStep::Value { text: _, used, more } => 0 <= used <= s.len() && (more ==> 1
                <= used) && (!more ==> used == s.len()),
            FieldStep::Fail { used } => 0 <= used <= s.len(),
        },
{
    if s.len() > 0 && s[0] == '"' {
        lemma_quoted_step_bounds(s.skip(1));
    } else {
        lemma_raw_step_bounds(s);
    }
}

/// The whole token stream of one line: the fields decoded before the stream
/// ends or the first failure, and whether a failure ended it.
#[verifier::ext_equal]
pub struct LineTokens {
    pub fields: Seq<Seq<char>>,
    pub failed: bool,
}

/// The token stream that a fresh tokenizer yields on `s`: fields are decoded
/// one after the other until a terminal field (one not followed by a comma)
/// or a decoding failure.  The empty input yields exactly one empty field.
pub open spec fn line_tokens(s: Seq<char>) -> LineTokens
    decreases s.len(),
    via line_tokens_decreases
{
    match field_step(s) {
        FieldStep::Fail { .. } => LineTokens { fields: Seq::empty(), failed: true },
        FieldStep::Value { text, used, more } => {
            if more {
                let rest = line_tokens(s.skip(used));
                LineTokens { fields: seq![text].add(rest.fields), failed: rest.failed }
            } else {
                LineTokens { fields: seq![text], failed: false }
            }
        },
    }
}

#[via_fn]
proof fn line_tokens_decreases(s: Seq<char>) {
    lemma_field_step_bounds(s);
}

/// Relies on `String::push`: appends exactly one character at the end.
#[verifier::external_body]
fn push_char(s: &mut String, c: char)
    ensures
        final(s)@ == old(s)@.push(c),
{
    s.push(c);
}

/// A tokenizer over one line of text.  Repeated calls of [`Self::next`] yield
/// the line's fields in order, then `None`; a malformed field yields an error
/// instead.
pub struct CsvFieldParser {
    input: Vec<char>,
    pos: usize,
    has_next: bool,
    failed: bool,
}

impl CsvFieldParser {
    /// The whole line under the tokenizer.
    pub closed spec fn text(&self) -> Seq<char> {
        self.input@
    }

    /// How many characters have been consumed.
    pub closed spec fn cursor(&self) -> int {
        self.pos as int
    }

    /// Whether a further field is owed: true until a terminal field (one not
    /// ended by a comma) has been yielded.
    pub closed spec fn more_fields(&self) -> bool {
        self.has_next
    }

    /// Whether a decoding failure has been yielded: once it has, the
    /// sequence is over and yields no further items.
    pub closed spec fn failed(&self) -> bool {
        self.failed
    }

    /// The input that is still to be consumed.
    pub open spec fn remaining(&self) -> Seq<char> {
        self.text().skip(self.cursor())
    }

    pub open spec fn wf(&self) -> bool {
        0 <= self.cursor() <= self.text().len()
    }

    pub fn new(s: &str) -> (r: CsvFieldParser)
        ensures
            r.wf(),
            r.text() == s@,
            r.cursor() == 0,
            r.more_fields(),
            !r.failed(),
    {
        let mut it = s.chars();
        let mut input: Vec<char> = Vec::new();
        proof {
            assert(input@ + it.remaining() =~= s@);
        }
        loop
            invariant
                input@ + it.remaining() == s@,
                it.decrease() is Some,
            ensures
                input@ == s@,
            decreases it.decrease()->0,
        {
            match it.next() {
                Some(c) => {
                    input.push(c);
                    proof {
                        assert(input@ + it.remaining() =~= s@);
                    }
                },
                None => {
                    proof {
                        assert(input@ =~= s@);
                    }
                    break ;
                },
            }
        }
        let r = CsvFieldParser { input, pos: 0, has_next: true, failed: false };
        proof {
            assert(r.remaining() =~= s@);
        }
        r
    }

    /// Whether a further field is owed.
    pub fn has_more(&self) -> (b: bool)
        ensures
            b == self.more_fields(),
    {
        self.has_next
    }

    /// Consumes one raw field from the current position, appending its text
    /// to `buf`, exactly as [`raw_step`] describes it.
    fn parse_raw_into(&mut self, buf: &mut String) -> (r: Result<(), CsvError>)
        requires
            old(self).wf(),
            old(self).more_fields(),
        ensures
            final(self).wf(),
            final(self).text() == old(self).text(),
            final(self).failed() == old(self).failed(),
            match raw_step(old(self).remaining()) {
                FieldStep::Value { text, used, more } => {
                    &&& r is Ok
                    &&& final(buf)@ == old(buf)@ + text
                    &&& final(self).cursor() == old(self).cursor() + used
                    &&& final(self).more_fields() == more
                },
                FieldStep::Fail { used } => {
                    &&& r is Err
                    &&& final(self).cursor() == old(self).cursor() + used
                    &&& final(self).more_fields()
                },
            },
        decreases self.text().len() - self.cursor(),
    {
        let ghost rem = self.remaining();
        if self.pos == self.input.len() {
            self.has_next = false;
            proof {
                assert(final(buf)@ =~= old(buf)@ + Seq::<char>::empty());
            }
            Ok(())
        } else {
            let c = self.input[self.pos];
            self.pos = self.pos + 1;
            proof {
                assert(rem.len() > 0 && rem[0] == c);
                assert(self.remaining() =~= rem.skip(1));
            }
            if c == ',' {
                proof {
                    assert(final(buf)@ =~= old(buf)@ + Seq::<char>::empty());
                }
                Ok(())
            } else if c == '\r' || c == '\n' {
                Err(CsvError)
            } else {
                push_char(buf, c);
                let ghost mid = buf@;
                let r = self.parse_raw_into(buf);
                proof {
                    assert(mid == old(buf)@ + seq![c]) by {
                        assert(old(buf)@.push(c) =~= old(buf)@ + seq![c]);
                    }
                    if let FieldStep::Value { text, used, more } = raw_step(rem.skip(1)) {
                        assert(buf@ =~= old(buf)@ + seq![c].add(text));
                    }
                }
                r
            }
        }
    }

    /// Consumes the remainder of a quoted field (the opening quote already
    /// consumed), appending its decoded text to `buf`, exactly as
    /// [`quoted_step`] describes it.
    fn parse_quote_into(&mut self, buf: &mut String) -> (r: Result<(), CsvError>)
        requires
            old(self).wf(),
            old(self).more_fields(),
        ensures
            final(self).wf(),
            final(self).text() == old(self).text(),
            final(self).failed() == old(self).failed(),
            match quoted_step(old(self).remaining()) {
                FieldStep::Value { text, used, more } => {
                    &&& r is Ok
                    &&& final(buf)@ == old(buf)@ + text
                    &&& final(self).cursor() == old(self).cursor() + used
                    &&& final(self).more_fields() == more
                },
                FieldStep::Fail { used } => {
                    &&& r is Err
                    &&& final(self).cursor() == old(self).cursor() + used
                    &&& final(self).more_fields()
                },
            },
        decreases self.text().len() - self.cursor(),
    {
        let ghost rem = self.remaining();
        if self.pos == self.input.len() {
            return Err(CsvError);
        }
        let c = self.input[self.pos];
        self.pos = self.pos + 1;
        proof {
            assert(rem.len() > 0 && rem[0] == c);
            assert(self.remaining() =~= rem.skip(1));
        }
        if c == '\r' || c == '\n' {
            Err(CsvError)
        } else if c == '"' {
            if self.pos == self.input.len() {
                self.has_next = false;
                proof {
                    assert(final(buf)@ =~= old(buf)@ + Seq::<char>::empty());
                }
                Ok(())
            } else {
                let d = self.input[self.pos];
                proof {
                    assert(rem.len() > 1 && rem[1] == d);
                }
                if d == '"' {
                    self.pos = self.pos + 1;
                    proof {
                        assert(self.remaining() =~= rem.skip(2));
                    }
                    push_char(buf, '"');
                    let ghost mid = buf@;
                    let r = self.parse_quote_into(buf);
                    proof {
                        assert(mid == old(buf)@ + seq!['"']) by {
                            assert(old(buf)@.push('"') =~= old(buf)@ + seq!['"']);
                        }
                        if let FieldStep::Value { text, used, more } = quoted_step(rem.skip(2)) {
                            assert(buf@ =~= old(buf)@ + seq!['"'].add(text));
                        }
                    }
                    r
                } else if d == ',' {
                    self.pos = self.pos + 1;
                    proof {
                        assert(final(buf)@ =~= old(buf)@ + Seq::<char>::empty());
                    }
                    Ok(())
                } else {
                    // The peeked character is not consumed.
                    Err(CsvError)
                }
            }
        } else if c == '\\' {
            if self.pos == self.input.len() {
                return Err(CsvError);
            }
            let d = self.input[self.pos];
            self.pos = self.pos + 1;
            proof {
                assert(rem.len() > 1 && rem[1] == d);
                assert(self.remaining() =~= rem.skip(2));
            }
            if d == 'n' || d == 'r' || d == 't' {
                let e = if d == 'n' {
                    '\n'
                } else if d == 'r' {
                    '\r'
                } else {
                    '\t'
                };
                push_char(buf, e);
                let ghost mid = buf@;
                let r = self.parse_quote_into(buf);
                proof {
                    assert(mid == old(buf)@ + seq![e]) by {
                        assert(old(buf)@.push(e) =~= old(buf)@ + seq![e]);
                    }
                    if let FieldStep::Value { text, used, more } = quoted_step(rem.skip(2)) {
                        assert(buf@ =~= old(buf)@ + seq![e].add(text));
                    }
                }
                r
            } else {
                Err(CsvError)
            }
        } else {
            push_char(buf, c);
            let ghost mid = buf@;
            let r = self.parse_quote_into(buf);
            proof {
                assert(mid == old(buf)@ + seq![c]) by {
                    assert(old(buf)@.push(c) =~= old(buf)@ + seq![c]);
                }
                if let FieldStep::Value { text, used, more } = quoted_step(rem.skip(1)) {
                    assert(buf@ =~= old(buf)@ + seq![c].add(text));
                }
            }
            r
        }
    }

    /// Yields the next field of the line: `Some(Ok(..))` for a decoded field,
    /// `Some(Err(..))` for a decoding failure, `None` once the terminal field
    /// has been yielded and the input is exhausted.  A failure ends the
    /// sequence: it is its last item, and every later call yields `None`.
    pub fn next(&mut self) -> (r: Option<Result<String, CsvError>>)
        requires
            old(self).wf(),
        ensures
            final(self).wf(),
            final(self).text() == old(self).text(),
            if old(self).failed() {
                &&& r is None
                &&& *final(self) == *old(self)
            } else if !old(self).more_fields() {
                &&& final(self).cursor() == old(self).cursor()
                &&& final(self).more_fields() == old(self).more_fields()
                &&& if old(self).remaining().len() == 0 {
                    r is None && !final(self).failed()
                } else {
                    (r matches Some(v) && v is Err) && final(self).failed()
                }
            } else {
                match field_step(old(self).remaining()) {
                    FieldStep::Value { text, used, more } => {
                        &&& r matches Some(v)
                        &&& v matches Ok(f) && f@ == text
                        &&& final(self).cursor() == old(self).cursor() + used
                        &&& final(self).more_fields() == more
                        &&& !final(self).failed()
                    },
                    FieldStep::Fail { used } => {
                        &&& r matches Some(v) && v is Err
                        &&& final(self).cursor() == old(self).cursor() + used
                        &&& final(self).more_fields()
                        &&& final(self).failed()
                    },
                }
            },
    {
        if self.failed {
            None
        } else if !self.has_next {
            if self.pos == self.input.len() {
                None
            } else {
                // Asked to continue past the terminal field while input
                // remains: an internal consistency failure, which also ends
                // the sequence.
                self.failed = true;
                Some(Err(CsvError))
            }
        } else if self.pos < self.input.len() && self.input[self.pos] == '"' {
            let ghost rem = self.remaining();
            self.pos = self.pos + 1;
            proof {
                assert(rem.len() > 0 && rem[0] == '"');
                assert(self.remaining() =~= rem.skip(1));
            }
            let mut buf = String::new();
            match self.parse_quote_into(&mut buf) {
                Ok(()) => {
                    proof {
                        if let FieldStep::Value { text, used, more } = quoted_step(rem.skip(1)) {
                            assert(buf@ =~= Seq::<char>::empty() + text);
                        }
                    }
                    Some(Ok(buf))
                },
                Err(e) => {
                    self.failed = true;
                    Some(Err(e))
                },
            }
        } else {
            let ghost rem = self.remaining();
            let mut buf = String::new();
            match self.parse_raw_into(&mut buf) {
                Ok(()) => {
                    proof {
                        if let FieldStep::Value { text, used, more } = raw_step(rem) {
                            assert(buf@ =~= Seq::<char>::empty() + text);
                        }
                    }
                    Some(Ok(buf))
                },
                Err(e) => {
                    self.failed = true;
                    Some(Err(e))
                },
            }
        }
    }
}

} // verus!
