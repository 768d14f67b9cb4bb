use photorotate::groups::{
    group_fits, plan_group, read_bounds, read_entry, read_icon_size, shift_group, EntryField, GroupError,
    GroupMode, GroupRequest,
};

fn alert(body: &str) -> String {
    format!("<span color=\"#FF000000\">********* {} **********</span>", body)
}

#[test]
fn read_entry_errors() {
    assert_eq!(read_entry("", EntryField::From), Err(GroupError::Empty(EntryField::From)));
    assert_eq!(read_entry("x", EntryField::To), Err(GroupError::NotInteger(EntryField::To)));
    assert_eq!(read_entry("0", EntryField::IconSize), Err(GroupError::NotPositive(EntryField::IconSize)));
    assert_eq!(read_entry("-3", EntryField::From), Err(GroupError::NotPositive(EntryField::From)));
    assert_eq!(read_entry("12", EntryField::From), Ok(12));
}

#[test]
fn read_entry_minus_ninety_nine_reads_as_not_an_integer() {
    assert_eq!(read_entry("-99", EntryField::From), Err(GroupError::NotInteger(EntryField::From)));
    assert_eq!(read_entry("-98", EntryField::From), Err(GroupError::NotPositive(EntryField::From)));
}

#[test]
fn read_bounds_checks_from_then_to_then_order() {
    assert_eq!(read_bounds("", ""), Err(GroupError::Empty(EntryField::From)));
    assert_eq!(read_bounds("1", ""), Err(GroupError::Empty(EntryField::To)));
    assert_eq!(read_bounds("5", "4"), Err(GroupError::FromAfterTo));
    assert_eq!(read_bounds("4", "4"), Ok((4, 4)));
    assert_eq!(read_bounds("1", "16"), Ok((1, 16)));
}

#[test]
fn read_icon_size_bounds() {
    assert_eq!(read_icon_size("49"), Err(GroupError::IconOutOfRange));
    assert_eq!(read_icon_size("50"), Ok(50));
    assert_eq!(read_icon_size("255"), Ok(255));
    assert_eq!(read_icon_size("256"), Err(GroupError::IconOutOfRange));
    assert_eq!(read_icon_size("abc"), Err(GroupError::NotInteger(EntryField::IconSize)));
    assert_eq!(read_icon_size(""), Err(GroupError::Empty(EntryField::IconSize)));
}

#[test]
fn shift_group_keeps_the_width() {
    assert_eq!(shift_group(GroupMode::Current, 3, 9), (3, 9));
    assert_eq!(shift_group(GroupMode::Next, 1, 16), (17, 32));
    assert_eq!(shift_group(GroupMode::Next, 17, 32), (33, 48));
    assert_eq!(shift_group(GroupMode::First, 33, 48), (1, 16));
    assert_eq!(shift_group(GroupMode::Next, 5, 5), (6, 6));
}

#[test]
fn plan_group_list() {
    let plan = plan_group(GroupMode::Current, true, "1", "16", "160");
    assert!(plan.entries.is_none());
    assert_eq!(plan.outcome, Ok(GroupRequest { from: 1, to: 16, icon: 160 }));
}

#[test]
fn plan_group_next_writes_entries_even_when_icon_size_is_bad() {
    let plan = plan_group(GroupMode::Next, true, "1", "16", "20");
    let entries = plan.entries.expect("entries are rewritten");
    assert_eq!(entries.from, "17");
    assert_eq!(entries.to, "32");
    assert_eq!(plan.outcome, Err(GroupError::IconOutOfRange));
}

#[test]
fn plan_group_first() {
    let plan = plan_group(GroupMode::First, true, "33", "48", "100");
    let entries = plan.entries.expect("entries are rewritten");
    assert_eq!((entries.from.as_str(), entries.to.as_str()), ("1", "16"));
    assert_eq!(plan.outcome, Ok(GroupRequest { from: 1, to: 16, icon: 100 }));
}

#[test]
fn plan_group_without_directory() {
    let plan = plan_group(GroupMode::Next, false, "1", "16", "160");
    assert!(plan.entries.is_none());
    assert_eq!(plan.outcome, Err(GroupError::NoDirectory));
}

#[test]
fn plan_group_bad_bounds_leave_entries() {
    let plan = plan_group(GroupMode::Next, true, "9", "3", "160");
    assert!(plan.entries.is_none());
    assert_eq!(plan.outcome, Err(GroupError::FromAfterTo));
}

#[test]
fn rewritten_entries_read_back_as_the_new_bounds() {
    for (mode, from, to) in [(GroupMode::Next, 1, 16), (GroupMode::First, 40, 70), (GroupMode::Next, 7, 7)] {
        let plan = plan_group(mode, true, &from.to_string(), &to.to_string(), "160");
        let entries = plan.entries.unwrap();
        let q = plan.outcome.unwrap();
        assert_eq!(read_bounds(&entries.from, &entries.to), Ok((q.from, q.to)));
        assert_eq!(q.to - q.from, to - from);
    }
}

#[test]
fn group_fits_finds_the_overflow() {
    assert!(group_fits(GroupMode::Next, "1", "16"));
    assert!(group_fits(GroupMode::Next, "1", "1073741823"));
    assert!(!group_fits(GroupMode::Next, "1", "1073741824"));
    assert!(!group_fits(GroupMode::Next, "1500000000", "1500000000"));
    assert!(group_fits(GroupMode::First, "1", "2147483647"));
    assert!(group_fits(GroupMode::Current, "1", "2147483647"));
    assert!(group_fits(GroupMode::Next, "x", "2147483647"));
}

#[test]
fn group_error_lines() {
    assert_eq!(GroupError::NoDirectory.notice().text, alert("List: ERROR GETTING DIRECTORY IN COMBOBOX"));
    assert_eq!(GroupError::Empty(EntryField::From).notice().text, alert("List: ERROR GETTING TEXT FROM FROM SIZE ENTRY"));
    assert_eq!(GroupError::Empty(EntryField::To).notice().text, alert("List: ERROR GETTING TEXT FROM TO SIZE ENTRY"));
    assert_eq!(GroupError::Empty(EntryField::IconSize).notice().text, alert("List: ERROR GETTING TEXT FROM ICON SIZE ENTRY"));
    assert_eq!(GroupError::NotInteger(EntryField::From).notice().text, alert("List: From Size is not an integer"));
    assert_eq!(GroupError::NotInteger(EntryField::To).notice().text, alert("List: To Size is not an integer"));
    assert_eq!(GroupError::NotInteger(EntryField::IconSize).notice().text, alert("List: Icon Size is not an integer"));
    assert_eq!(GroupError::NotPositive(EntryField::From).notice().text, alert("List: From Size not positive integer"));
    assert_eq!(GroupError::NotPositive(EntryField::To).notice().text, alert("List: To Size not positive integer"));
    assert_eq!(GroupError::NotPositive(EntryField::IconSize).notice().text, alert("List: Icon Size not positive integer"));
    assert_eq!(GroupError::FromAfterTo.notice().text, alert("List: From Size Greater than To Size"));
    assert_eq!(GroupError::IconOutOfRange.notice().text, alert("List: Icon Size not between 50 and 255"));
    let n = GroupError::FromBeyondCount { from: 17, count: 12 }.notice();
    assert!(n.markup);
    assert_eq!(n.text, alert("List: From value 17 Greater than number of files of 12"));
}
