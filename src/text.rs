//! Diagnostic text: the lines written to the serial sink by the loader and
//! the kernel. Writing the bytes out is left to the caller.

use vstd::prelude::*;
use vstd::string::*;

verus! {

/// The decimal digits of `n`, without sign or leading zeros.
pub open spec fn decimal(n: nat) -> Seq<char>
    decreases n,
{
    let digit = seq!['0', '1', '2', '3', '4', '5', '6', '7', '8', '9'][(n % 10) as int];
    if n < 10 {
        seq![digit]
    } else {
        decimal(n / 10).push(digit)
    }
}

/// Relies on the `ToString` of `u32`, which writes the value in decimal
/// without sign or leading zeros.
#[verifier::external_body]
fn decimal_string(n: u32) -> (r: String)
    ensures
        r@ == decimal(n as nat),
{
    n.to_string()
}

/// `string1` followed by `string2`.
pub fn concat(string1: &str, string2: &str) -> (r: String)
    ensures
        r@ == string1@ + string2@,
{
    let mut r = String::from_str(string1);
    r.append(string2);
    r
}

/// The informational line for `text`.
pub fn info(text: &str) -> (r: String)
    ensures
        r@ == "[INFO] "@ + text@ + "\n"@,
{
    let mut r = String::from_str("[INFO] ");
    r.append(text);
    r.append("\n");
    r
}

/// The error line for `text`.
pub fn error(text: &str) -> (r: String)
    ensures
        r@ == "[ERROR] "@ + text@ + "\n"@,
{
    let mut r = String::from_str("[ERROR] ");
    r.append(text);
    r.append("\n");
    r
}

/// Where a panic was raised: file, line and column.
pub struct PanicLocation<'a> {
    pub file: &'a str,
    pub line: u32,
    pub column: u32,
}

pub open spec fn location_text(location: Option<PanicLocation>) -> Seq<char> {
    match location {
        Some(l) => "Location: "@ + l.file@ + ":"@ + decimal(l.line as nat) + ":"@ + decimal(
            l.column as nat,
        ) + "\n"@,
        None => "Location: <unknown>\n"@,
    }
}

pub open spec fn message_text(message: Option<&str>) -> Seq<char> {
    match message {
        Some(m) => "Message: "@ + m@ + "\n"@,
        None => "Message: <none>\n"@,
    }
}

/// The panic report written to the serial sink: a banner, the location, the
/// message, and a closing rule.
pub fn print_panic_info_serial(location: Option<PanicLocation>, message: Option<&str>) -> (r: String)
    ensures
        r@ == "=== PANIC ===\n"@ + location_text(location) + message_text(message) + "=============\n"@
            + "\n\n"@,
{
    let mut r = String::from_str("=== PANIC ===\n");
    match &location {
        Some(l) => {
            r.append("Location: ");
            r.append(l.file);
            r.append(":");
            let line = decimal_string(l.line);
            r.append(line.as_str());
            r.append(":");
            let column = decimal_string(l.column);
            r.append(column.as_str());
            r.append("\n");
        },
        None => {
            r.append("Location: <unknown>\n");
        },
    }
    match message {
        Some(m) => {
            r.append("Message: ");
            r.append(m);
            r.append("\n");
        },
        None => {
            r.append("Message: <none>\n");
        },
    }
    r.append("=============\n");
    r.append("\n\n");
    r
}

} // verus!
