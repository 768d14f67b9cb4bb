//! What the window's message line shows: a plain text, or a text in Pango
//! markup (the error lines, in red).

use vstd::prelude::*;

verus! {

/// A line for the message area.
pub struct Notice {
    /// Whether `text` is Pango markup (shown with `set_markup`) rather than
    /// plain text (shown with `set_text`).
    pub markup: bool,
    /// The text itself.
    pub text: String,
}

/// The red frame that every error line is written in.
pub open spec fn alert(body: Seq<char>) -> Seq<char> {
    "<span color=\"#FF000000\">********* "@ + body + " **********</span>"@
}

/// A plain line.
pub fn plain(text: String) -> (r: Notice)
    ensures
        !r.markup,
        r.text@ == text@,
{
    Notice { markup: false, text }
}

/// An error line: `body` in the red frame.
pub fn alert_notice(body: &str) -> (r: Notice)
    ensures
        r.markup,
        r.text@ == alert(body@),
{
    let mut s = String::from_str("<span color=\"#FF000000\">********* ");
    s.append(body);
    s.append(" **********</span>");
    Notice { markup: true, text: s }
}

/// An error line whose body is already built.
pub fn alert_owned(body: String) -> (r: Notice)
    ensures
        r.markup,
        r.text@ == alert(body@),
{
    alert_notice(body.as_str())
}

/// `a` followed by `b`.
pub fn join(a: &str, b: &str) -> (r: String)
    ensures
        r@ == a@ + b@,
{
    let mut s = String::from_str(a);
    s.append(b);
    s
}

} // verus!
