//! The report itself: an immutable snapshot of a failure, the builder that
//! captures platform label and stack trace at construction time, the encoder
//! to the line-per-field text form, and the fresh file name a report is
//! persisted under.

use vstd::prelude::*;
use crate::caps;
use crate::encode::append_kv_line;
use crate::encode::decode_value_line;
use crate::encode::kv_line;
use crate::encode::lemma_decode_kv_line;

verus! {

/// How the failure was detected. A closed set, one category today.
#[derive(Clone, Copy, Debug, PartialEq, Eq, Structural)]
pub enum Method {
    Panic,
}

/// An immutable snapshot of a failure: what failed, why, the platform it ran
/// on, and the stack at the moment of construction.
pub struct Report {
    name: String,
    operating_system: String,
    crate_version: String,
    explanation: String,
    cause: String,
    method: Method,
    backtrace: String,
}

/// The mathematical value of a `Report`: its fields as character sequences.
#[verifier::ext_equal]
pub struct ReportView {
    pub name: Seq<char>,
    pub operating_system: Seq<char>,
    pub crate_version: Seq<char>,
    pub explanation: Seq<char>,
    pub cause: Seq<char>,
    pub method: Method,
    pub backtrace: Seq<char>,
}

impl View for Report {
    type V = ReportView;

    closed spec fn view(&self) -> ReportView {
        ReportView {
            name: self.name@,
            operating_system: self.operating_system@,
            crate_version: self.crate_version@,
            explanation: self.explanation@,
            cause: self.cause@,
            method: self.method,
            backtrace: self.backtrace@,
        }
    }
}

/// The text a failure category is written as.
pub open spec fn method_label(m: Method) -> Seq<char> {
    match m {
        Method::Panic => "Panic"@,
    }
}

/// The full text form of a report: one line per field, in declaration order.
pub open spec fn encode_report(r: ReportView) -> Seq<char> {
    kv_line("name"@, r.name) + (kv_line("operating_system"@, r.operating_system) + (kv_line(
        "crate_version"@,
        r.crate_version,
    ) + (kv_line("explanation"@, r.explanation) + (kv_line("cause"@, r.cause) + (kv_line(
        "method"@,
        method_label(r.method),
    ) + kv_line("backtrace"@, r.backtrace))))))
}

/// The spec-level inverse of `encode_report`: reads the seven lines back in
/// order and requires the text to end with the last one.
pub open spec fn decode_report(s: Seq<char>) -> Option<ReportView> {
    match decode_value_line(s, "name"@) {
        Some(p1) => match decode_value_line(p1.1, "operating_system"@) {
            Some(p2) => match decode_value_line(p2.1, "crate_version"@) {
                Some(p3) => match decode_value_line(p3.1, "explanation"@) {
                    Some(p4) => match decode_value_line(p4.1, "cause"@) {
                        Some(p5) => match decode_value_line(p5.1, "method"@) {
                            Some(p6) => match decode_value_line(p6.1, "backtrace"@) {
                                Some(p7) => if p6.0 == "Panic"@ && p7.1.len() == 0 {
                                    Some(
                                        ReportView {
                                            name: p1.0,
                                            operating_system: p2.0,
                                            crate_version: p3.0,
                                            explanation: p4.0,
                                            cause: p5.0,
                                            method: Method::Panic,
                                            backtrace: p7.0,
                                        },
                                    )
                                } else {
                                    None
                                },
                                None => None,
                            },
                            None => None,
                        },
                        None => None,
                    },
                    None => None,
                },
                None => None,
            },
            None => None,
        },
        None => None,
    }
}

/// Round-trip law: the text of any report, read back, yields every field of
/// the report unchanged. With `Report::serialize`'s contract this says that
/// building a report and serializing it loses nothing.
pub proof fn lemma_serialize_round_trip(r: ReportView)
    ensures
        decode_report(encode_report(r)) == Some(r),
{
    let l7 = kv_line("backtrace"@, r.backtrace);
    let l6 = kv_line("method"@, method_label(r.method)) + l7;
    let l5 = kv_line("cause"@, r.cause) + l6;
    let l4 = kv_line("explanation"@, r.explanation) + l5;
    let l3 = kv_line("crate_version"@, r.crate_version) + l4;
    let l2 = kv_line("operating_system"@, r.operating_system) + l3;
    let l1 = kv_line("name"@, r.name) + l2;
    assert(encode_report(r) == l1);
    lemma_decode_kv_line("name"@, r.name, l2);
    lemma_decode_kv_line("operating_system"@, r.operating_system, l3);
    lemma_decode_kv_line("crate_version"@, r.crate_version, l4);
    lemma_decode_kv_line("explanation"@, r.explanation, l5);
    lemma_decode_kv_line("cause"@, r.cause, l6);
    lemma_decode_kv_line("method"@, method_label(r.method), l7);
    lemma_decode_kv_line("backtrace"@, r.backtrace, Seq::<char>::empty());
    assert(kv_line("backtrace"@, r.backtrace) + Seq::<char>::empty() =~= l7);
    assert(r.method is Panic);
    assert(method_label(r.method) == "Panic"@);
    let decoded = decode_report(encode_report(r)).unwrap();
    assert(decoded =~= r);
}

impl Report {
    /// Builds a report. The caller-supplied fields are copied verbatim; the
    /// platform label and the stack trace are captured here, once, so the
    /// trace reflects the stack at the moment of failure.
    pub fn new(name: &str, version: &str, method: Method, explanation: String, cause: String) -> (r:
        Report)
        ensures
            r@.name == name@,
            r@.crate_version == version@,
            r@.method == method,
            r@.explanation == explanation@,
            r@.cause == cause@,
            r@.operating_system.len() >= 5,
            r@.operating_system.subrange(0, 5) == "unix:"@,
    {
        let operating_system = caps::current_platform_label();
        let backtrace = caps::capture_backtrace_text();
        Report {
            name: name.to_owned(),
            operating_system,
            crate_version: version.to_owned(),
            explanation,
            cause,
            method,
            backtrace,
        }
    }

    /// Encodes the report as text, one `key = "value"` line per field. The
    /// result is always present and is exactly `encode_report` of the view.
    pub fn serialize(&self) -> (r: Option<String>)
        ensures
            r matches Some(t) && t@ == encode_report(self@),
    {
        let mut out = String::new();
        append_kv_line(&mut out, "name", self.name.as_str());
        append_kv_line(&mut out, "operating_system", self.operating_system.as_str());
        append_kv_line(&mut out, "crate_version", self.crate_version.as_str());
        append_kv_line(&mut out, "explanation", self.explanation.as_str());
        append_kv_line(&mut out, "cause", self.cause.as_str());
        let label: &str = match self.method {
            Method::Panic => "Panic",
        };
        append_kv_line(&mut out, "method", label);
        append_kv_line(&mut out, "backtrace", self.backtrace.as_str());
        proof {
            assert(label@ == method_label(self@.method));
            assert(out@ =~= encode_report(self@));
        }
        Some(out)
    }

    /// The failing component's name, as supplied to `new`.
    pub fn name(&self) -> (r: &String)
        ensures
            r@ == self@.name,
    {
        &self.name
    }

    /// The platform label captured at construction.
    pub fn operating_system(&self) -> (r: &String)
        ensures
            r@ == self@.operating_system,
    {
        &self.operating_system
    }

    /// The component version, as supplied to `new`.
    pub fn crate_version(&self) -> (r: &String)
        ensures
            r@ == self@.crate_version,
    {
        &self.crate_version
    }

    /// The human-readable description of the failure, as supplied to `new`.
    pub fn explanation(&self) -> (r: &String)
        ensures
            r@ == self@.explanation,
    {
        &self.explanation
    }

    /// The underlying trigger, as supplied to `new`.
    pub fn cause(&self) -> (r: &String)
        ensures
            r@ == self@.cause,
    {
        &self.cause
    }

    /// The failure category, as supplied to `new`.
    pub fn method(&self) -> (r: Method)
        ensures
            r == self@.method,
    {
        self.method
    }

    /// The stack trace captured at construction.
    pub fn backtrace(&self) -> (r: &String)
        ensures
            r@ == self@.backtrace,
    {
        &self.backtrace
    }
}

/// A character of a hyphenated identifier: a lower-case hexadecimal digit or
/// a hyphen.
pub open spec fn is_identifier_char(c: char) -> bool {
    ('0' <= c && c <= '9') || ('a' <= c && c <= 'f') || c == '-'
}

/// A character a report file name is made of: identifier characters,
/// lower-case letters and the dot. In particular no path separator, so the
/// name stays inside the directory it is joined to.
pub open spec fn is_file_name_char(c: char) -> bool {
    is_identifier_char(c) || ('a' <= c && c <= 'z') || c == '.'
}

/// The file name a report with the given identifier is persisted under.
pub fn report_file_name(identifier: &str) -> (r: String)
    ensures
        r@ == "report-"@ + identifier@ + ".toml"@,
{
    let mut out = "report-".to_owned();
    out.append(identifier);
    out.append(".toml");
    out
}

/// A report file name around a freshly drawn random identifier, so that two
/// calls practically never name the same file: `report-`, 36 identifier
/// characters, `.toml`.
pub fn fresh_report_file_name() -> (r: String)
    ensures
        r@.len() == 48,
        r@.subrange(0, 7) == "report-"@,
        r@.subrange(43, 48) == ".toml"@,
        forall|j: int| 7 <= j < 43 ==> is_identifier_char(#[trigger] r@[j]),
        forall|j: int| 0 <= j < 48 ==> is_file_name_char(#[trigger] r@[j]),
{
    let identifier = caps::fresh_uuid_hyphenated();
    let r = report_file_name(identifier.as_str());
    proof {
        reveal_strlit("report-");
        reveal_strlit(".toml");
        assert(identifier@.len() == 36 && r@ == "report-"@ + identifier@ + ".toml"@);
        assert(r@.subrange(0, 7) =~= "report-"@);
        assert(r@.subrange(43, 48) =~= ".toml"@);
        assert forall|j: int| 7 <= j < 43 implies is_identifier_char(r@[j]) by {
            assert(r@[j] == identifier@[j - 7]);
        }
        assert forall|j: int| 0 <= j < 48 implies is_file_name_char(r@[j]) by {
            if j < 7 {
                assert(r@[j] == "report-"@[j]);
            } else if j < 43 {
                assert(is_identifier_char(r@[j]));
            } else {
                assert(r@[j] == ".toml"@[j - 43]);
            }
        }
    }
    r
}

} // verus!

