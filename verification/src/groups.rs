//! The "Individual Rotation" tab's number entries: which files to show (a
//! group given by a first and a last position, counted from 1) and how big
//! their icons are, and how the group buttons move from one group to the
//! next.

use vstd::prelude::*;
use crate::notice::{Notice, alert, alert_notice, alert_owned, join};
use crate::text::{decimal, decimal_text, parse_i32, spec_parse_i32, lemma_parse_decimal};

verus! {

/// One of the three number entries.
#[derive(Clone, Copy, Debug, PartialEq, Eq, Structural)]
pub enum EntryField {
    /// The "From" entry: position of the first file of the group.
    From,
    /// The "To" entry: position of the last file of the group.
    To,
    /// The "Icon Size" entry: side of the square the icons are drawn in.
    IconSize,
}

/// Why a group of icons is not shown.
#[derive(Clone, Copy, Debug, PartialEq, Eq, Structural)]
pub enum GroupError {
    /// No directory is chosen.
    NoDirectory,
    /// The entry is empty.
    Empty(EntryField),
    /// The entry does not hold an integer (or holds -99, the value the
    /// entries use for "not an integer").
    NotInteger(EntryField),
    /// The entry holds zero or a negative integer.
    NotPositive(EntryField),
    /// "To" is smaller than "From".
    FromAfterTo,
    /// The icon size is not between 50 and 255.
    IconOutOfRange,
    /// "From" is beyond the number of image files in the directory.
    FromBeyondCount { from: u64, count: u64 },
}

/// The three ways the group buttons choose the group: "List" shows the
/// group as entered, "Next Group" the group of the same size just after it,
/// "First Group" the group of the same size that starts at the first file.
#[derive(Clone, Copy, Debug, PartialEq, Eq, Structural)]
pub enum GroupMode {
    Current,
    Next,
    First,
}

/// A group that passed every check of the entries.
#[derive(Clone, Copy, Debug, PartialEq, Eq, Structural)]
pub struct GroupRequest {
    /// Position of the first file, from 1.
    pub from: i32,
    /// Position of the last file asked for.
    pub to: i32,
    /// Side of the icons, in pixels.
    pub icon: i32,
}

/// New texts for the "From" and "To" entries.
pub struct EntryTexts {
    pub from: String,
    pub to: String,
}

/// What a group button does with the entries.
pub struct GroupPlan {
    /// The texts the "From" and "To" entries are set to, if they change.
    pub entries: Option<EntryTexts>,
    /// The group to show, or why none is shown.
    pub outcome: Result<GroupRequest, GroupError>,
}

/// The number an entry's text stands for: what `parse::<i32>` gives, and
/// -99 where it fails.
pub open spec fn entry_value(text: Seq<char>) -> i32 {
    match spec_parse_i32(text) {
        Some(v) => v,
        None => -99i32,
    }
}

/// Reading one entry that must hold a positive integer.
pub open spec fn spec_read_entry(text: Seq<char>, field: EntryField) -> Result<i32, GroupError> {
    if text.len() == 0 {
        Err(GroupError::Empty(field))
    } else if entry_value(text) > 0 {
        Ok(entry_value(text))
    } else if entry_value(text) == -99 {
        Err(GroupError::NotInteger(field))
    } else {
        Err(GroupError::NotPositive(field))
    }
}

/// Reading the "From" and "To" entries: "From" first, then "To", then their order.
pub open spec fn spec_read_bounds(from_text: Seq<char>, to_text: Seq<char>) -> Result<
    (i32, i32),
    GroupError,
> {
    match spec_read_entry(from_text, EntryField::From) {
        Err(e) => Err(e),
        Ok(f) => match spec_read_entry(to_text, EntryField::To) {
            Err(e) => Err(e),
            Ok(t) => if t < f {
                Err(GroupError::FromAfterTo)
            } else {
                Ok((f, t))
            },
        },
    }
}

/// Reading the "Icon Size" entry.
pub open spec fn spec_read_icon(text: Seq<char>) -> Result<i32, GroupError> {
    match spec_read_entry(text, EntryField::IconSize) {
        Err(e) => Err(e),
        Ok(v) => if v < 50 || v > 255 {
            Err(GroupError::IconOutOfRange)
        } else {
            Ok(v)
        },
    }
}

/// The bounds of the group a button shows, from the bounds entered.
pub open spec fn spec_shift(mode: GroupMode, from: int, to: int) -> (int, int) {
    match mode {
        GroupMode::Current => (from, to),
        GroupMode::Next => (to + 1, to + to - from + 1),
        GroupMode::First => (1, to - from + 1),
    }
}

/// "Next Group" computes `to + to - from + 1` in `i32`, left to right:
/// each step must fit, else the button panics.
pub open spec fn shift_fits(mode: GroupMode, from: int, to: int) -> bool {
    mode == GroupMode::Next ==> to + to <= i32::MAX && to + to - from + 1 <= i32::MAX
}

/// The group buttons do not panic on these entries.
pub open spec fn plan_defined(mode: GroupMode, from_text: Seq<char>, to_text: Seq<char>) -> bool {
    match spec_read_bounds(from_text, to_text) {
        Ok((f, t)) => shift_fits(mode, f as int, t as int),
        Err(_) => true,
    }
}

/// The body of the error line for a group error.
pub open spec fn group_error_body(e: GroupError) -> Seq<char> {
    match e {
        GroupError::NoDirectory => "List: ERROR GETTING DIRECTORY IN COMBOBOX"@,
        GroupError::Empty(EntryField::From) => "List: ERROR GETTING TEXT FROM FROM SIZE ENTRY"@,
        GroupError::Empty(EntryField::To) => "List: ERROR GETTING TEXT FROM TO SIZE ENTRY"@,
        GroupError::Empty(EntryField::IconSize) => "List: ERROR GETTING TEXT FROM ICON SIZE ENTRY"@,
        GroupError::NotInteger(EntryField::From) => "List: From Size is not an integer"@,
        GroupError::NotInteger(EntryField::To) => "List: To Size is not an integer"@,
        GroupError::NotInteger(EntryField::IconSize) => "List: Icon Size is not an integer"@,
        GroupError::NotPositive(EntryField::From) => "List: From Size not positive integer"@,
        GroupError::NotPositive(EntryField::To) => "List: To Size not positive integer"@,
        GroupError::NotPositive(EntryField::IconSize) => "List: Icon Size not positive integer"@,
        GroupError::FromAfterTo => "List: From Size Greater than To Size"@,
        GroupError::IconOutOfRange => "List: Icon Size not between 50 and 255"@,
        GroupError::FromBeyondCount { from, count } => "List: From value "@ + decimal(
            from as nat,
        ) + " Greater than number of files of "@ + decimal(count as nat),
    }
}

impl GroupError {
    /// The error line shown for this error.
    pub fn notice(&self) -> (r: Notice)
        ensures
            r.markup,
            r.text@ == alert(group_error_body(*self)),
    {
        match *self {
            GroupError::NoDirectory => alert_notice("List: ERROR GETTING DIRECTORY IN COMBOBOX"),
            GroupError::Empty(EntryField::From) => alert_notice(
                "List: ERROR GETTING TEXT FROM FROM SIZE ENTRY",
            ),
            GroupError::Empty(EntryField::To) => alert_notice("List: ERROR GETTING TEXT FROM TO SIZE ENTRY"),
            GroupError::Empty(EntryField::IconSize) => alert_notice(
                "List: ERROR GETTING TEXT FROM ICON SIZE ENTRY",
            ),
            GroupError::NotInteger(EntryField::From) => alert_notice("List: From Size is not an integer"),
            GroupError::NotInteger(EntryField::To) => alert_notice("List: To Size is not an integer"),
            GroupError::NotInteger(EntryField::IconSize) => alert_notice(
                "List: Icon Size is not an integer",
            ),
            GroupError::NotPositive(EntryField::From) => alert_notice("List: From Size not positive integer"),
            GroupError::NotPositive(EntryField::To) => alert_notice("List: To Size not positive integer"),
            GroupError::NotPositive(EntryField::IconSize) => alert_notice(
                "List: Icon Size not positive integer",
            ),
            GroupError::FromAfterTo => alert_notice("List: From Size Greater than To Size"),
            GroupError::IconOutOfRange => alert_notice("List: Icon Size not between 50 and 255"),
            GroupError::FromBeyondCount { from, count } => {
                let mut body = join("List: From value ", decimal_text(from).as_str());
                body.append(" Greater than number of files of ");
                body.append(decimal_text(count).as_str());
                alert_owned(body)
            },
        }
    }
}

/// Reads one entry that must hold a positive integer, as the group buttons
/// do: an empty entry, a text that is not an integer (or is -99) and a
/// value that is not positive each have their error.
pub fn read_entry(text: &str, field: EntryField) -> (r: Result<i32, GroupError>)
    ensures
        r == spec_read_entry(text@, field),
        (spec_parse_i32(text@) matches Some(v) && v > 0) ==> r == Ok::<i32, GroupError>(
            spec_parse_i32(text@)->0,
        ),
        r matches Ok(v) ==> v > 0 && spec_parse_i32(text@) == Some(v),
{
    if text.unicode_len() == 0 {
        return Err(GroupError::Empty(field));
    }
    let value = match parse_i32(text) {
        Some(v) => v,
        None => -99,
    };
    if value > 0 {
        Ok(value)
    } else if value == -99 {
        Err(GroupError::NotInteger(field))
    } else {
        Err(GroupError::NotPositive(field))
    }
}

/// Reads the "From" and "To" entries and checks that "From" is not after "To".
pub fn read_bounds(from_text: &str, to_text: &str) -> (r: Result<(i32, i32), GroupError>)
    ensures
        r == spec_read_bounds(from_text@, to_text@),
        r matches Ok((f, t)) ==> 0 < f <= t,
{
    let from = match read_entry(from_text, EntryField::From) {
        Ok(v) => v,
        Err(e) => return Err(e),
    };
    let to = match read_entry(to_text, EntryField::To) {
        Ok(v) => v,
        Err(e) => return Err(e),
    };
    if to < from {
        Err(GroupError::FromAfterTo)
    } else {
        Ok((from, to))
    }
}

/// Reads the "Icon Size" entry: a positive integer from 50 to 255.
pub fn read_icon_size(text: &str) -> (r: Result<i32, GroupError>)
    ensures
        r == spec_read_icon(text@),
        r matches Ok(v) ==> 50 <= v <= 255,
        (spec_parse_i32(text@) matches Some(v) && 50 <= v <= 255) ==> r == Ok::<i32, GroupError>(
            spec_parse_i32(text@)->0,
        ),
        r matches Ok(v) ==> spec_parse_i32(text@) == Some(v),
        forall|v: int|
            50 <= v <= 255 && text@ == #[trigger] decimal(v as nat) ==> r == Ok::<i32, GroupError>(
                v as i32,
            ),
{
    proof {
        assert forall|v: int| 50 <= v <= 255 && text@ == #[trigger] decimal(v as nat) implies spec_parse_i32(
            text@,
        ) == Some(v as i32) by {
            lemma_parse_decimal(v as nat);
        }
        crate::text::lemma_decimal_digits(0);
    }
    match read_entry(text, EntryField::IconSize) {
        Err(e) => Err(e),
        Ok(v) => if v < 50 || v > 255 {
            Err(GroupError::IconOutOfRange)
        } else {
            Ok(v)
        },
    }
}

/// The bounds of the group that a button shows. "Next Group" gives the group
/// of the same size that starts just after the last one; "First Group" the
/// group of the same size that starts at 1.
pub fn shift_group(mode: GroupMode, from: i32, to: i32) -> (r: (i32, i32))
    requires
        0 < from <= to,
        shift_fits(mode, from as int, to as int),
    ensures
        (r.0 as int, r.1 as int) == spec_shift(mode, from as int, to as int),
        r.1 - r.0 == to - from,
        0 < r.0 <= r.1,
        mode == GroupMode::Next ==> r.0 == to + 1,
        mode == GroupMode::First ==> r.0 == 1,
{
    match mode {
        GroupMode::Current => (from, to),
        GroupMode::Next => (to + 1, to + to - from + 1),
        GroupMode::First => (1, to - from + 1),
    }
}

/// Whether a group button can work the entries without an overflow panic.
pub fn group_fits(mode: GroupMode, from_text: &str, to_text: &str) -> (r: bool)
    ensures
        r == plan_defined(mode, from_text@, to_text@),
{
    match read_bounds(from_text, to_text) {
        Err(_) => true,
        Ok((from, to)) => match mode {
            GroupMode::Next => to <= i32::MAX - to && to - from <= i32::MAX - to - 1,
            _ => true,
        },
    }
}

/// What a group button ("List", "Next Group", "First Group") does with the
/// entries: check the directory, then "From", then "To", then their order;
/// for the two group buttons write the new bounds into the entries; then
/// check the icon size.
pub fn plan_group(
    mode: GroupMode,
    has_directory: bool,
    from_text: &str,
    to_text: &str,
    icon_text: &str,
) -> (r: GroupPlan)
    requires
        has_directory ==> plan_defined(mode, from_text@, to_text@),
    ensures
        !has_directory ==> r.entries is None && r.outcome == Err::<GroupRequest, GroupError>(
            GroupError::NoDirectory,
        ),
        has_directory ==> match spec_read_bounds(from_text@, to_text@) {
            Err(e) => r.entries is None && r.outcome == Err::<GroupRequest, GroupError>(e),
            Ok((f, t)) => {
                let (nf, nt) = spec_shift(mode, f as int, t as int);
                &&& (mode == GroupMode::Current) == r.entries is None
                &&& (r.entries matches Some(e) ==> e.from@ == decimal(nf as nat) && e.to@
                    == decimal(nt as nat))
                &&& r.outcome == match spec_read_icon(icon_text@) {
                    Err(e) => Err(e),
                    Ok(i) => Ok(GroupRequest { from: nf as i32, to: nt as i32, icon: i }),
                }
            },
        },
        r.outcome matches Ok(q) ==> 0 < q.from <= q.to && 50 <= q.icon <= 255,
        has_directory && spec_read_bounds(from_text@, to_text@) is Ok && (spec_parse_i32(
            icon_text@,
        ) matches Some(v) && 50 <= v <= 255) ==> (r.outcome matches Ok(q) && q.icon
            == spec_parse_i32(icon_text@)->0),
        r.outcome matches Ok(q) ==> spec_parse_i32(icon_text@) == Some(q.icon),
{
    if !has_directory {
        return GroupPlan { entries: None, outcome: Err(GroupError::NoDirectory) };
    }
    let (from, to) = match read_bounds(from_text, to_text) {
        Ok(b) => b,
        Err(e) => return GroupPlan { entries: None, outcome: Err(e) },
    };
    let (nf, nt) = shift_group(mode, from, to);
    let entries = match mode {
        GroupMode::Current => None,
        _ => Some(EntryTexts { from: decimal_text(nf as u64), to: decimal_text(nt as u64) }),
    };
    let outcome = match read_icon_size(icon_text) {
        Err(e) => Err(e),
        Ok(icon) => Ok(GroupRequest { from: nf, to: nt, icon }),
    };
    GroupPlan { entries, outcome }
}

/// Once "Next Group" or "First Group" has written the new bounds into the
/// entries, the entries read back as exactly those bounds.
pub proof fn lemma_rewritten_entries_read_back(mode: GroupMode, from: int, to: int)
    requires
        0 < from <= to <= i32::MAX,
        shift_fits(mode, from, to),
    ensures
        ({
            let (nf, nt) = spec_shift(mode, from, to);
            spec_read_bounds(decimal(nf as nat), decimal(nt as nat)) == Ok::<
                (i32, i32),
                GroupError,
            >((nf as i32, nt as i32))
        }),
{
    let (nf, nt) = spec_shift(mode, from, to);
    lemma_parse_decimal(nf as nat);
    lemma_parse_decimal(nt as nat);
    crate::text::lemma_decimal_digits(nf as nat);
    crate::text::lemma_decimal_digits(nt as nat);
}

} // verus!

verus! {

/// "First Group" comes back to the same group whatever group is shown:
/// after "Next Group", it gives what it gives on the bounds entered before.
pub proof fn lemma_first_after_next(from: int, to: int)
    requires
        0 < from <= to,
    ensures
        ({
            let (nf, nt) = spec_shift(GroupMode::Next, from, to);
            spec_shift(GroupMode::First, nf, nt) == spec_shift(GroupMode::First, from, to)
        }),
{
}

} // verus!
