//! Trusted boundary: the narrow capability calls the report pipeline consumes
//! (platform label, stack trace text, fresh identifier) and one `String`
//! primitive that the encoder builds its output with.

use vstd::prelude::*;
use crate::report::is_identifier_char;

verus! {

/// Relies on `os_type::current_platform`: returns the platform kind of the
/// running system; the label is its `Debug` name behind the fixed prefix
/// `unix:`. The kind depends on the machine, so nothing more is promised.
#[verifier::external_body]
pub(crate) fn current_platform_label() -> (r: String)
    ensures
        r@.len() >= 5,
        r@.subrange(0, 5) == "unix:"@,
{
    let platform = os_type::current_platform();
    format!("unix:{:?}", platform.os_type)
}

/// Relies on `backtrace::Backtrace::new`: captures the stack at the call
/// site; the alternate `Debug` form renders it as text. The text depends on
/// the call stack and the machine, so nothing is promised of it.
#[verifier::external_body]
pub(crate) fn capture_backtrace_text() -> String {
    format!("{:#?}", backtrace::Backtrace::new())
}

/// Relies on `uuid::Uuid::new_v4` and its hyphenated `Display` form: a random
/// identifier rendered as exactly 36 characters, lower-case hexadecimal
/// digits and hyphens. The value is random, so nothing more is promised.
#[verifier::external_body]
pub(crate) fn fresh_uuid_hyphenated() -> (r: String)
    ensures
        r@.len() == 36,
        forall|j: int| 0 <= j < 36 ==> is_identifier_char(#[trigger] r@[j]),
{
    uuid::Uuid::new_v4().hyphenated().to_string()
}

/// Relies on `String::push`: appends the given character to the end of the
/// string.
#[verifier::external_body]
pub(crate) fn push_char(s: &mut String, c: char)
    ensures
        final(s)@ == old(s)@.push(c),
{
    s.push(c);
}

} // verus!
