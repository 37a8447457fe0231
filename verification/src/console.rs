//! Log-line formatting: severity prefixes and color markup. Writing the
//! formatted lines to the host console is the caller's job.

use vstd::prelude::*;
use vstd::string::StringExecFns;

verus! {

/// Text wrapped in color markup for the host console.
pub open spec fn spec_colorized(text: Seq<char>, color: Seq<char>) -> Seq<char> {
    "<span style=\"color:"@ + color + "\">"@ + text + "</span>"@
}

/// Wraps the text in color markup for the host console.
pub fn colorize(text: &str, color: &str) -> (r: String)
    ensures
        r@ == spec_colorized(text@, color@),
{
    let mut out = String::from_str("<span style=\"color:");
    out.append(color);
    out.append("\">");
    out.append(text);
    out.append("</span>");
    out
}

/// An informational log line.
pub fn info(s: &str) -> (r: String)
    ensures
        r@ == "[INFO] "@ + s@,
{
    let mut out = String::from_str("[INFO] ");
    out.append(s);
    out
}

/// A warning log line, with its tag colored orange.
pub fn warn(s: &str) -> (r: String)
    ensures
        r@ == "["@ + spec_colorized("WARN"@, "orange"@) + "] "@ + s@,
{
    let mut out = String::from_str("[");
    let tag = colorize("WARN", "orange");
    out.append(tag.as_str());
    out.append("] ");
    out.append(s);
    out
}

/// An error log line, with its tag colored red.
pub fn error(s: &str) -> (r: String)
    ensures
        r@ == "["@ + spec_colorized("ERROR"@, "red"@) + "] "@ + s@,
{
    let mut out = String::from_str("[");
    let tag = colorize("ERROR", "red");
    out.append(tag.as_str());
    out.append("] ");
    out.append(s);
    out
}

/// A debug log line, with its tag colored blue.
pub fn debug(s: &str) -> (r: String)
    ensures
        r@ == "["@ + spec_colorized("DEBUG"@, "dodgerBlue"@) + "] "@ + s@,
{
    let mut out = String::from_str("[");
    let tag = colorize("DEBUG", "dodgerBlue");
    out.append(tag.as_str());
    out.append("] ");
    out.append(s);
    out
}

} // verus!
