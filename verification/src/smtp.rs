//! Parser for `smtp:` URI scan results, whose format is not standardized but
//! appears to be `smtp[:subject[:body]]`: everything after the prefix up to
//! the first colon is the address, then the subject, then the body.

#![allow(non_snake_case)]

use vstd::prelude::*;
use crate::text::{find_char, has_prefix, index_of_char, lemma_index_of_char};

verus! {

/// A scan result: the decoded text of a symbol.
pub struct RXingResult {
    text: String,
}

impl RXingResult {
    pub closed spec fn spec_text(self) -> Seq<char> {
        self.text@
    }

    pub fn new(text: String) -> (r: RXingResult)
        ensures
            r.spec_text() == text@,
    {
        RXingResult { text }
    }

    pub fn getText(&self) -> (r: &String)
        ensures
            r@ == self.spec_text(),
    {
        &self.text
    }
}

/// An email result extracted from a scan: recipients and message parts.
pub struct EmailAddressParsedRXingResult {
    pub tos: Vec<String>,
    pub ccs: Vec<String>,
    pub bccs: Vec<String>,
    pub subject: String,
    pub body: String,
}

impl EmailAddressParsedRXingResult {
    pub fn with_details(
        tos: Vec<String>,
        ccs: Vec<String>,
        bccs: Vec<String>,
        subject: String,
        body: String,
    ) -> (r: EmailAddressParsedRXingResult)
        ensures
            r.tos == tos,
            r.ccs == ccs,
            r.bccs == bccs,
            r.subject == subject,
            r.body == body,
    {
        EmailAddressParsedRXingResult { tos, ccs, bccs, subject, body }
    }
}

/// A typed result recognised in decoded text.
pub enum ParsedClientResult {
    EmailResult(EmailAddressParsedRXingResult),
}

/// The decoded text with a leading byte-order mark removed.
pub open spec fn massaged(t: Seq<char>) -> Seq<char> {
    if t.len() >= 1 && t[0] == '\u{feff}' {
        t.subrange(1, t.len() as int)
    } else {
        t
    }
}

/// Utilities shared by the result parsers.
pub struct ResultParser;

impl ResultParser {
    /// The text of a result, cleaned of a leading byte-order mark.
    pub fn getMassagedText(result: &RXingResult) -> (r: String)
        ensures
            r@ == massaged(result.spec_text()),
    {
        let t = result.getText().as_str();
        let len = t.unicode_len();
        if len >= 1 && t.get_char(0) == '\u{feff}' {
            t.substring_char(1, len).to_owned()
        } else {
            t.to_owned()
        }
    }
}

/// Whether the cleaned text carries the `smtp:` scheme, in either case used
/// in practice.
pub open spec fn smtp_prefix_ok(raw: Seq<char>) -> bool {
    raw.len() >= 5 && (raw.subrange(0, 5) == "smtp:"@ || raw.subrange(0, 5) == "SMTP:"@)
}

/// The address: the part before the first colon, or all of `rest` when there
/// is none.
pub open spec fn spec_email(rest: Seq<char>) -> Seq<char> {
    let c1 = index_of_char(rest, ':', 0);
    if c1 == -1 {
        rest
    } else {
        rest.subrange(0, c1)
    }
}

/// The subject: between the first and second colon; empty without a first
/// colon, and running to the end without a second.
pub open spec fn spec_subject(rest: Seq<char>) -> Seq<char> {
    let c1 = index_of_char(rest, ':', 0);
    if c1 == -1 {
        Seq::<char>::empty()
    } else {
        let r2 = rest.subrange(c1 + 1, rest.len() as int);
        let c2 = index_of_char(r2, ':', 0);
        if c2 == -1 {
            r2
        } else {
            r2.subrange(0, c2)
        }
    }
}

/// The body: after the second colon; empty without one.
pub open spec fn spec_body(rest: Seq<char>) -> Seq<char> {
    let c1 = index_of_char(rest, ':', 0);
    if c1 == -1 {
        Seq::<char>::empty()
    } else {
        let r2 = rest.subrange(c1 + 1, rest.len() as int);
        let c2 = index_of_char(r2, ':', 0);
        if c2 == -1 {
            Seq::<char>::empty()
        } else {
            r2.subrange(c2 + 1, r2.len() as int)
        }
    }
}

/// Parses an `smtp:` URI result into an email result, splitting address,
/// subject and body on the first two colons after the scheme.  Returns `None`
/// exactly when the cleaned text does not start with the scheme.
pub fn parse(result: &RXingResult) -> (r: Option<ParsedClientResult>)
    ensures
        r is Some <==> smtp_prefix_ok(massaged(result.spec_text())),
        match r {
            Some(p) => match p {
                ParsedClientResult::EmailResult(e) => {
                    let raw = massaged(result.spec_text());
                    let rest = raw.subrange(5, raw.len() as int);
                    &&& e.tos@.len() == 1
                    &&& e.tos@[0]@ == spec_email(rest)
                    &&& e.ccs@.len() == 0
                    &&& e.bccs@.len() == 0
                    &&& e.subject@ == spec_subject(rest)
                    &&& e.body@ == spec_body(rest)
                },
            },
            None => true,
        },
{
    proof {
        reveal_strlit("smtp:");
        reveal_strlit("SMTP:");
    }
    let rawText = ResultParser::getMassagedText(result);
    let raw = rawText.as_str();
    if !(has_prefix(raw, "smtp:") || has_prefix(raw, "SMTP:")) {
        return None;
    }
    let len = raw.unicode_len();
    let rest = raw.substring_char(5, len);
    let rest_len = rest.unicode_len();
    let ghost rest_view = rest@;

    let email_str: &str;
    let subject_str: &str;
    let body_str: &str;
    match find_char(rest, ':', 0) {
        None => {
            email_str = rest;
            subject_str = "";
            body_str = "";
            proof {
                reveal_strlit("");
                assert(spec_subject(rest_view) =~= ""@);
                assert(spec_body(rest_view) =~= ""@);
            }
        },
        Some(c1) => {
            proof {
                lemma_index_of_char(rest_view, ':', 0);
            }
            email_str = rest.substring_char(0, c1);
            let after = rest.substring_char(c1 + 1, rest_len);
            let after_len = after.unicode_len();
            let ghost after_view = after@;
            match find_char(after, ':', 0) {
                None => {
                    subject_str = after;
                    body_str = "";
                    proof {
                        reveal_strlit("");
                        assert(spec_body(rest_view) =~= ""@);
                    }
                },
                Some(c2) => {
                    proof {
                        lemma_index_of_char(after_view, ':', 0);
                    }
                    subject_str = after.substring_char(0, c2);
                    body_str = after.substring_char(c2 + 1, after_len);
                },
            }
        },
    }
    let mut tos: Vec<String> = Vec::new();
    tos.push(email_str.to_owned());
    Some(
        ParsedClientResult::EmailResult(
            EmailAddressParsedRXingResult::with_details(
                tos,
                Vec::new(),
                Vec::new(),
                subject_str.to_owned(),
                body_str.to_owned(),
            ),
        ),
    )
}

} // verus!
