//! The two directory buttons ("Directory", "Output Directory"), which open a
//! folder chooser; and the window's title.

use vstd::prelude::*;
use crate::notice::{Notice, alert, alert_notice, join, plain};
use crate::text::{decimal, decimal_text};

verus! {

/// Which directory a chooser is for.
#[derive(Clone, Copy, Debug, PartialEq, Eq, Structural)]
pub enum DialogTarget {
    /// The directory of the images ("Directory").
    Input,
    /// The directory the conversions are written to ("Output Directory").
    Output,
}

/// The line shown while the chooser is open.
pub open spec fn waiting_text(target: DialogTarget) -> Seq<char> {
    match target {
        DialogTarget::Input => "getting directory"@,
        DialogTarget::Output => "getting directory output"@,
    }
}

/// The line shown while the chooser is open.
pub fn waiting_notice(target: DialogTarget) -> (r: Notice)
    ensures
        !r.markup,
        r.text@ == waiting_text(target),
{
    match target {
        DialogTarget::Input => plain(String::from_str("getting directory")),
        DialogTarget::Output => plain(String::from_str("getting directory output")),
    }
}

/// What answering the chooser does.
pub struct DialogOutcome {
    /// The directory to put first in the directory list and select.
    pub chosen: Option<String>,
    /// The line to show, if it changes.
    pub notice: Option<Notice>,
}

/// The error line a chooser shows.
pub open spec fn dialog_error(target: DialogTarget, what: Seq<char>) -> Seq<char> {
    match target {
        DialogTarget::Input => alert("Directory: "@ + what),
        DialogTarget::Output => alert("Directory output: "@ + what),
    }
}

fn dialog_error_notice(target: DialogTarget, what: &str) -> (r: Notice)
    ensures
        r.markup,
        r.text@ == dialog_error(target, what@),
{
    match target {
        DialogTarget::Input => alert_notice(join("Directory: ", what).as_str()),
        DialogTarget::Output => alert_notice(join("Directory output: ", what).as_str()),
    }
}

/// Answers the chooser. `accepted` tells whether "Open" was pressed; `file`
/// is the chosen folder, if any, and its local path, if it has one;
/// `label_text` is what the message line shows when the answer comes. A
/// folder with a path is chosen; a missing folder or path is an error; if
/// the chooser was left some other way while the line still shows the
/// waiting text, that is an error too.
pub fn dialog_outcome(
    target: DialogTarget,
    accepted: bool,
    file: Option<Option<String>>,
    label_text: &str,
) -> (r: DialogOutcome)
    ensures
        accepted ==> match file {
            None => r.chosen is None && (r.notice matches Some(n) && n.markup && n.text@
                == dialog_error(target, "ERROR GETTING FILE"@)),
            Some(None) => r.chosen is None && (r.notice matches Some(n) && n.markup && n.text@
                == dialog_error(target, "ERROR GETTING PATH"@)),
            Some(Some(p)) => (r.chosen matches Some(c) && c@ == p@) && (r.notice matches Some(n)
                && !n.markup && n.text@ == (match target {
                DialogTarget::Input => "directory selected"@,
                DialogTarget::Output => "directory output selected"@,
            })),
        },
        !accepted ==> r.chosen is None && (label_text@ == waiting_text(target) ==> (r.notice matches Some(
            n,
        ) && n.markup && n.text@ == dialog_error(target, "ERROR  OPEN  button not selected"@))),
        !accepted && label_text@ != waiting_text(target) ==> r.notice is None,
{
    if accepted {
        match file {
            None => DialogOutcome {
                chosen: None,
                notice: Some(dialog_error_notice(target, "ERROR GETTING FILE")),
            },
            Some(None) => DialogOutcome {
                chosen: None,
                notice: Some(dialog_error_notice(target, "ERROR GETTING PATH")),
            },
            Some(Some(p)) => {
                let notice = match target {
                    DialogTarget::Input => plain(String::from_str("directory selected")),
                    DialogTarget::Output => plain(String::from_str("directory output selected")),
                };
                DialogOutcome { chosen: Some(p), notice: Some(notice) }
            },
        }
    } else {
        let waiting = waiting_notice(target);
        let shown = String::from_str(label_text);
        if shown == waiting.text {
            DialogOutcome {
                chosen: None,
                notice: Some(dialog_error_notice(target, "ERROR  OPEN  button not selected")),
            }
        } else {
            DialogOutcome { chosen: None, notice: None }
        }
    }
}

/// The window's title, with the GTK version it runs on.
pub fn window_title(major: u32, minor: u32, micro: u32) -> (r: String)
    ensures
        r@ == "Photo Rotate and Convert to 1080 Rust GTK4 version: "@ + decimal(major as nat) + "."@
            + decimal(minor as nat) + "."@ + decimal(micro as nat),
{
    let mut s = join(
        "Photo Rotate and Convert to 1080 Rust GTK4 version: ",
        decimal_text(major as u64).as_str(),
    );
    s.append(".");
    s.append(decimal_text(minor as u64).as_str());
    s.append(".");
    s.append(decimal_text(micro as u64).as_str());
    s
}

} // verus!
