//! Turning images with the rotation scripts: "Rotate All" on the
//! "Rotation Correction" list, and the three turn buttons on the icons
//! selected in the "Individual Rotation" tab.

use vstd::prelude::*;
use crate::launch::{Job, LaunchMode, next_launch, spec_next_launch, schedule};
use crate::notice::{Notice, alert, alert_notice, join, plain};
use crate::text::{decimal, decimal_text, digit_value, is_digit, char_is_digit, char_digit_value, push_char};

verus! {

// ---------------------------------------------------------------------------
// Reading the orientation back from a list row
// ---------------------------------------------------------------------------

/// What `format!("{:?}", s)` writes for a string `s`: the string in double
/// quotes, with the characters that `char::escape_debug` escapes escaped.
pub uninterp spec fn debug_quoted(s: Seq<char>) -> Seq<char>;

/// The characters that `{:?}` writes unchanged inside the quotes: the
/// printable ASCII characters but for the double quote, the backslash and
/// (to be safe) the single quote.
pub open spec fn plain_ascii(s: Seq<char>) -> bool {
    forall|i: int| 0 <= i < s.len() ==> ' ' <= #[trigger] s[i] <= '~' && s[i] != '"' && s[i] != '\\'
        && s[i] != '\''
}

/// Writes a string as `{:?}` does. The contract names the result
/// `debug_quoted` of the text, which depends on nothing else, and states
/// that a text of plain printable ASCII is only put in double quotes (the
/// documentation of `char::escape_debug`); how other characters are
/// escaped is not stated.
#[verifier::external_body]
fn debug_text(s: &str) -> (r: String)
    ensures
        r@ == debug_quoted(s@),
        plain_ascii(s@) ==> r@ == "\""@ + s@ + "\""@,
{
    format!("{:?}", s)
}

/// How "Rotate All" sees a row's label: the label's value read back from
/// the list store, written with `{:?}`, that is `Ok("…")`.
pub open spec fn row_view(label: Seq<char>) -> Seq<char> {
    "Ok("@ + debug_quoted(label) + ")"@
}

/// The bytes of the word `Orientation`.
pub open spec fn tag_bytes() -> Seq<u8> {
    seq![79u8, 114u8, 105u8, 101u8, 110u8, 116u8, 97u8, 116u8, 105u8, 111u8, 110u8]
}

/// `needle` stands in `hay` from position `i` on.
pub open spec fn occurs_at(hay: Seq<u8>, needle: Seq<u8>, i: int) -> bool {
    0 <= i && i + needle.len() <= hay.len() && hay.subrange(i, i + needle.len()) == needle
}

/// `i` is where `Orientation` first stands in `hay` (what `str::find` gives).
pub open spec fn first_tag_at(hay: Seq<u8>, i: int) -> bool {
    &&& occurs_at(hay, tag_bytes(), i)
    &&& forall|j: int| 0 <= j < i ==> !#[trigger] occurs_at(hay, tag_bytes(), j)
}

/// "Rotate All" takes the one byte 13 after the start of `Orientation`
/// (`get(start..start + 1).unwrap()`): it panics unless that byte is there
/// and is a whole character, that is an ASCII byte.
pub open spec fn probe_defined(hay: Seq<u8>) -> bool {
    forall|i: int| #[trigger] first_tag_at(hay, i) ==> i + 13 < hay.len() && hay[i + 13] < 128
}

/// What "Rotate All" finds in a row's text.
#[derive(Clone, Copy, Debug, PartialEq, Eq, Structural)]
pub enum Probe {
    /// The text does not hold `Orientation`.
    NoTag,
    /// The character found 13 bytes after the start of `Orientation`.
    Found(char),
}

/// What "Rotate All" finds in the bytes of a row's text.
pub open spec fn spec_probe(hay: Seq<u8>) -> Probe {
    if exists|i: int| #[trigger] first_tag_at(hay, i) {
        let i = choose|i: int| #[trigger] first_tag_at(hay, i);
        Probe::Found(hay[i + 13] as char)
    } else {
        Probe::NoTag
    }
}

/// The orientation "Rotate All" reads from the character it found:
/// `parse::<i32>()` of that one character, or -99 where it fails.
pub open spec fn probe_value(c: char) -> int {
    if is_digit(c) {
        digit_value(c)
    } else {
        -99
    }
}

/// Where `Orientation` first stands in `hay`, as `str::find` gives it.
fn find_tag(hay: &[u8]) -> (r: Option<usize>)
    ensures
        match r {
            Some(i) => first_tag_at(hay@, i as int) && forall|j: int| #[trigger]
                first_tag_at(hay@, j) ==> j == i,
            None => forall|j: int| !#[trigger] first_tag_at(hay@, j),
        },
{
    let needle: [u8; 11] = [79, 114, 105, 101, 110, 116, 97, 116, 105, 111, 110];
    assert(needle@ =~= tag_bytes());
    let n = hay.len();
    let mut i: usize = 0;
    while i <= n && n - i >= 11
        invariant
            n == hay@.len(),
            needle@ == tag_bytes(),
            i <= n + 1,
            forall|j: int| 0 <= j < i ==> !#[trigger] occurs_at(hay@, tag_bytes(), j),
        decreases n + 1 - i,
    {
        let mut k: usize = 0;
        while k < 11 && hay[i + k] == needle[k]
            invariant
                n == hay@.len(),
                needle@ == tag_bytes(),
                i + 11 <= n,
                k <= 11,
                forall|m: int| 0 <= m < k ==> hay@[i + m] == needle@[m],
            decreases 11 - k,
        {
            k = k + 1;
        }
        if k == 11 {
            assert(hay@.subrange(i as int, i + 11) =~= tag_bytes());
            assert(first_tag_at(hay@, i as int));
            assert forall|j: int| #[trigger] first_tag_at(hay@, j) implies j == i by {
                if j > i {
                    assert(!occurs_at(hay@, tag_bytes(), i as int));
                }
            }
            return Some(i);
        }
        assert(hay@.subrange(i as int, i + 11)[k as int] != tag_bytes()[k as int]);
        i = i + 1;
    }
    assert forall|j: int| !#[trigger] first_tag_at(hay@, j) by {
        if first_tag_at(hay@, j) {
            assert(occurs_at(hay@, tag_bytes(), j));
        }
    }
    None
}

/// Finds what "Rotate All" reads in a text: the byte 13 after the first
/// `Orientation`, if the text holds that word.
pub fn probe_text(view: &str) -> (r: Probe)
    requires
        probe_defined(vstd::utf8::encode_utf8(view@)),
    ensures
        r == spec_probe(vstd::utf8::encode_utf8(view@)),
{
    let hay = view.as_bytes();
    let n = hay.len();
    match find_tag(hay) {
        None => Probe::NoTag,
        Some(i) => {
            assert(first_tag_at(hay@, i as int));
            assert(hay@ == vstd::utf8::encode_utf8(view@));
            assert(i + 13 < n);
            Probe::Found(hay[i + 13] as char)
        },
    }
}

/// The text "Rotate All" reads for a label: `Ok("…")`.
pub fn row_view_text(label: &str) -> (r: String)
    ensures
        r@ == row_view(label@),
        plain_ascii(label@) ==> r@ == "Ok("@ + ("\""@ + label@ + "\""@) + ")"@,
{
    let mut s = join("Ok(", debug_text(label).as_str());
    s.append(")");
    s
}

/// A label written by the orientation lists: `Orientation: ` and one digit.
pub open spec fn is_digit_label(label: Seq<char>) -> bool {
    exists|n: int| 0 <= n < 10 && label == #[trigger] crate::orientation::orientation_label(n as nat)
}

/// ASCII text is encoded one byte per character.
proof fn lemma_ascii_encoding(s: Seq<char>)
    requires
        forall|i: int| 0 <= i < s.len() ==> (#[trigger] s[i] as u32) < 128,
    ensures
        vstd::utf8::encode_utf8(s) == s.map_values(|c: char| (c as u32) as u8),
    decreases s.len(),
{
    if s.len() > 0 {
        let rest = s.drop_first();
        assert forall|i: int| 0 <= i < rest.len() implies (#[trigger] rest[i] as u32) < 128 by {
            assert(rest[i] == s[i + 1]);
        }
        lemma_ascii_encoding(rest);
        let c = s[0] as u32;
        assert(c < 128);
        assert((c & 0x7F) as u8 == c as u8) by (bit_vector)
            requires
                c < 128,
        ;
        assert(vstd::utf8::encode_scalar(c) =~= seq![c as u8]);
        assert(s.map_values(|c: char| (c as u32) as u8) =~= seq![c as u8] + rest.map_values(
            |c: char| (c as u32) as u8,
        ));
    }
}

/// In the text `Ok("Orientation: d")` that "Rotate All" reads for a label
/// of the orientation lists, it finds the digit `d`.
proof fn lemma_digit_label_probe(label: Seq<char>, n: int)
    requires
        0 <= n < 10,
        label == crate::orientation::orientation_label(n as nat),
    ensures
        plain_ascii(label),
        ({
            let b = vstd::utf8::encode_utf8("Ok("@ + ("\""@ + label + "\""@) + ")"@);
            probe_defined(b) && spec_probe(b) == Probe::Found(digit_char_of(n))
        }),
{
    reveal_strlit("Ok(");
    reveal_strlit("\"");
    reveal_strlit("Orientation: ");
    reveal_strlit(")");
    let d = digit_char_of(n);
    assert(crate::text::decimal(n as nat) =~= seq![d]);
    assert(label =~= seq!['O', 'r', 'i', 'e', 'n', 't', 'a', 't', 'i', 'o', 'n', ':', ' ', d]);
    assert(d as u32 == 48 + n);
    assert forall|i: int| 0 <= i < label.len() implies ' ' <= #[trigger] label[i] <= '~' && label[i]
        != '"' && label[i] != '\\' && label[i] != '\'' by {}
    let view = "Ok("@ + ("\""@ + label + "\""@) + ")"@;
    assert(view =~= seq![
        'O', 'k', '(', '"', 'O', 'r', 'i', 'e', 'n', 't', 'a', 't', 'i', 'o', 'n', ':', ' ', d, '"', ')',
    ]);
    assert forall|i: int| 0 <= i < view.len() implies (#[trigger] view[i] as u32) < 128 by {}
    lemma_ascii_encoding(view);
    let b = vstd::utf8::encode_utf8(view);
    let db = (48 + n) as u8;
    assert(b =~= seq![
        79u8, 107u8, 40u8, 34u8, 79u8, 114u8, 105u8, 101u8, 110u8, 116u8, 97u8, 116u8, 105u8, 111u8,
        110u8, 58u8, 32u8, db, 34u8, 41u8,
    ]);
    assert(b.subrange(4, 15) =~= tag_bytes());
    assert(!occurs_at(b, tag_bytes(), 0)) by {
        assert(b.subrange(0, 11)[1] != tag_bytes()[1]);
    }
    assert(!occurs_at(b, tag_bytes(), 1)) by {
        assert(b.subrange(1, 12)[0] != tag_bytes()[0]);
    }
    assert(!occurs_at(b, tag_bytes(), 2)) by {
        assert(b.subrange(2, 13)[0] != tag_bytes()[0]);
    }
    assert(!occurs_at(b, tag_bytes(), 3)) by {
        assert(b.subrange(3, 14)[0] != tag_bytes()[0]);
    }
    assert(first_tag_at(b, 4));
    assert forall|j: int| #[trigger] first_tag_at(b, j) implies j == 4 by {
        if j > 4 {
            assert(!occurs_at(b, tag_bytes(), 4));
        }
    }
    assert(b[17] == db);
    assert((db as char) == d);
}

/// The character of the digit `n`.
pub open spec fn digit_char_of(n: int) -> char {
    crate::text::digit_char(n)
}

/// What "Rotate All" finds in a row whose label is `label`, or `None` where
/// it panics on that row. On a label written by the orientation lists,
/// `Orientation: ` and a digit, it finds that digit.
pub fn probe_label(label: &str) -> (r: Option<Probe>)
    ensures
        is_digit_label(label@) ==> r == Some(Probe::Found(label@.last())),
        ({
            let view = row_view(label@);
            let bytes = vstd::utf8::encode_utf8(view);
            match r {
                None => !probe_defined(bytes),
                Some(p) => probe_defined(bytes) && p == spec_probe(bytes),
            }
        }),
{
    let view = row_view_text(label);
    proof {
        if is_digit_label(label@) {
            let n = choose|n: int| 0 <= n < 10 && label@ == #[trigger] crate::orientation::orientation_label(n as nat);
            lemma_digit_label_probe(label@, n);
            assert(crate::text::decimal(n as nat) =~= seq![digit_char_of(n)]);
            assert(label@.last() == digit_char_of(n));
        }
    }
    let s = view.as_str();
    let hay = s.as_bytes();
    let n = hay.len();
    if let Some(i) = find_tag(hay) {
        if !(n - i > 13 && hay[i + 13] < 128) {
            return None;
        }
    }
    Some(probe_text(s))
}

} // verus!

verus! {

// ---------------------------------------------------------------------------
// "Rotate All"
// ---------------------------------------------------------------------------

/// What "Rotate All" has done so far, row by row.
pub struct RotateAll {
    /// The files sent to the rotation script.
    pub rotated: u32,
    /// The commands started in the background since the last one waited for.
    pub running: u32,
    /// The notes on rows whose orientation could not be used.
    pub note: String,
}

/// The script "Rotate All" runs on each file to turn.
pub open spec fn rotate_all_script() -> Seq<char> {
    "/home/jp/gimp.sh"@
}

/// The note added for a row whose orientation character `c` is not a
/// positive integer.
pub open spec fn bad_orientation_note(note: Seq<char>, name: Seq<char>, c: char) -> Seq<char> {
    let head = " "@ + note + " File Ok("@ + debug_quoted(name) + ") orientation value of "@;
    if probe_value(c) == -99 {
        head + "Some("@ + debug_quoted(seq![c]) + ") is not an integer"@
    } else {
        head + decimal(probe_value(c) as nat) + " is not positive"@
    }
}

/// What "Rotate All" has done, as plain values: files sent to the script,
/// commands counted in the background, notes.
pub open spec fn rotate_all_view(s: RotateAll) -> (nat, nat, Seq<char>) {
    (s.rotated as nat, s.running as nat, s.note@)
}

/// Whether "Rotate All" turns a row on which it finds `probe`: the digit
/// 3, 6 or 8.
pub open spec fn is_turned(probe: Probe) -> bool {
    probe matches Probe::Found(c) && (probe_value(c) == 3 || probe_value(c) == 6 || probe_value(c)
        == 8)
}

/// One row of "Rotate All", on plain values.
pub open spec fn spec_rotate_all_step(
    s: (nat, nat, Seq<char>),
    dir: Seq<char>,
    name: Seq<char>,
    probe: Probe,
    more_rows: bool,
) -> ((nat, nat, Seq<char>), Option<(Seq<char>, Seq<Seq<char>>, LaunchMode)>) {
    match probe {
        Probe::Found(c) => {
            let v = probe_value(c);
            if v == 3 || v == 6 || v == 8 {
                let (mode, next) = spec_next_launch(s.1, more_rows);
                (
                    (s.0 + 1, next, s.2),
                    Some((rotate_all_script(), seq![crate::launch::path_in(dir, name)], mode)),
                )
            } else if v > 0 {
                (s, None)
            } else {
                ((s.0, s.1, bad_orientation_note(s.2, name, c)), None)
            }
        },
        Probe::NoTag => (s, None),
    }
}

/// "Rotate All" over rows `(name, probe)` in order, from the state `s`: the
/// state at the end and the commands run. A row is followed by another
/// while more than one row is left.
pub open spec fn rotate_all_run(dir: Seq<char>, rows: Seq<(Seq<char>, Probe)>, s: (
    nat,
    nat,
    Seq<char>,
)) -> ((nat, nat, Seq<char>), Seq<(Seq<char>, Seq<Seq<char>>, LaunchMode)>)
    decreases rows.len(),
{
    if rows.len() == 0 {
        (s, Seq::empty())
    } else {
        let (s1, job) = spec_rotate_all_step(s, dir, rows[0].0, rows[0].1, rows.len() > 1);
        let (s2, jobs) = rotate_all_run(dir, rows.drop_first(), s1);
        (
            s2,
            match job {
                Some(j) => seq![j] + jobs,
                None => jobs,
            },
        )
    }
}

/// The rows "Rotate All" turns, in order, each with whether a row follows it.
pub open spec fn turned_rows(rows: Seq<(Seq<char>, Probe)>) -> Seq<(Seq<char>, bool)>
    decreases rows.len(),
{
    if rows.len() == 0 {
        Seq::empty()
    } else if is_turned(rows[0].1) {
        seq![(rows[0].0, rows.len() > 1)] + turned_rows(rows.drop_first())
    } else {
        turned_rows(rows.drop_first())
    }
}

/// A whole run of "Rotate All": exactly the rows whose probed digit is 3, 6
/// or 8 get a command, in row order, each `/home/jp/gimp.sh dir/name`,
/// started as the launch schedule of "a row follows" says; the count of
/// files sent grows by the number of those rows.
pub proof fn lemma_rotate_all_run(dir: Seq<char>, rows: Seq<(Seq<char>, Probe)>, s: (
    nat,
    nat,
    Seq<char>,
))
    requires
        s.1 <= 4,
    ensures
        ({
            let (fin, jobs) = rotate_all_run(dir, rows, s);
            let t = turned_rows(rows);
            &&& jobs.len() == t.len()
            &&& fin.0 == s.0 + t.len()
            &&& fin.1 <= 4
            &&& forall|k: int|
                0 <= k < t.len() ==> #[trigger] jobs[k] == (
                    rotate_all_script(),
                    seq![crate::launch::path_in(dir, t[k].0)],
                    schedule(t.map_values(|x: (Seq<char>, bool)| x.1), s.1)[k],
                )
        }),
    decreases rows.len(),
{
    if rows.len() > 0 {
        let (s1, job) = spec_rotate_all_step(s, dir, rows[0].0, rows[0].1, rows.len() > 1);
        let rest = rows.drop_first();
        lemma_rotate_all_run(dir, rest, s1);
        let (fin, jobs) = rotate_all_run(dir, rows, s);
        let (fin1, jobs1) = rotate_all_run(dir, rest, s1);
        let t = turned_rows(rows);
        let t1 = turned_rows(rest);
        let flags = t.map_values(|x: (Seq<char>, bool)| x.1);
        let flags1 = t1.map_values(|x: (Seq<char>, bool)| x.1);
        if is_turned(rows[0].1) {
            let (mode, next) = spec_next_launch(s.1, rows.len() > 1);
            assert(t == seq![(rows[0].0, rows.len() > 1)] + t1);
            assert(flags.drop_first() =~= flags1);
            assert(flags[0] == (rows.len() > 1));
            assert(schedule(flags, s.1) =~= seq![mode] + schedule(flags1, next));
            crate::launch::lemma_schedule_bounded(flags1, next);
            assert(jobs == seq![job.unwrap()] + jobs1);
            assert forall|k: int| 0 <= k < t.len() implies #[trigger] jobs[k] == (
                rotate_all_script(),
                seq![crate::launch::path_in(dir, t[k].0)],
                schedule(flags, s.1)[k],
            ) by {
                if k > 0 {
                    assert(jobs[k] == jobs1[k - 1]);
                    assert(t[k] == t1[k - 1]);
                    assert(schedule(flags, s.1)[k] == schedule(flags1, next)[k - 1]);
                }
            }
        } else {
            assert(t == t1);
            assert(jobs == jobs1);
            assert(s1.1 == s.1 && s1.0 == s.0);
        }
    }
}

/// "Rotate All" before the first row.
pub fn rotate_all_begin() -> (r: RotateAll)
    ensures
        r.rotated == 0,
        r.running == 0,
        r.note@ == " "@,
{
    RotateAll { rotated: 0, running: 0, note: String::from_str(" ") }
}

/// Why "Rotate All" does nothing: the list is empty (never filled), or no
/// directory is chosen.
pub fn rotate_all_refusal(has_list: bool, has_directory: bool) -> (r: Option<Notice>)
    ensures
        !has_list ==> (r matches Some(n) && n.markup && n.text@ == alert(
            "Rotate All: ERROR NOTHING IN LIST"@,
        )),
        has_list && !has_directory ==> (r matches Some(n) && n.markup && n.text@ == alert(
            "List: ERROR GETTING DIRECTORY IN COMBOBOX"@,
        )),
        has_list && has_directory ==> r is None,
{
    if !has_list {
        Some(alert_notice("Rotate All: ERROR NOTHING IN LIST"))
    } else if !has_directory {
        Some(alert_notice("List: ERROR GETTING DIRECTORY IN COMBOBOX"))
    } else {
        None
    }
}

/// One row of "Rotate All": a row whose orientation reads 3, 6 or 8 has its
/// file `dir/name` sent to the rotation script; a row whose orientation
/// character is not a positive digit gets a note; other rows are passed by.
pub fn rotate_all_step(state: RotateAll, dir: &str, name: &str, probe: Probe, more_rows: bool) -> (r: (
    RotateAll,
    Option<Job>,
))
    requires
        state.running <= 4,
        state.rotated < i32::MAX,
    ensures
        r.0.running <= 4,
        (rotate_all_view(r.0), match r.1 {
            Some(j) => Some(crate::launch::job_view(j)),
            None => None,
        }) == spec_rotate_all_step(rotate_all_view(state), dir@, name@, probe, more_rows),
        match probe {
            Probe::Found(c) => {
                let v = probe_value(c);
                if v == 3 || v == 6 || v == 8 {
                    let (mode, next) = spec_next_launch(state.running as nat, more_rows);
                    &&& r.0.rotated == state.rotated + 1
                    &&& r.0.running == next
                    &&& r.0.note@ == state.note@
                    &&& r.1 matches Some(job) && job.program@ == rotate_all_script() && job.mode
                        == mode && job.args@.len() == 1 && job.args@[0]@ == crate::launch::path_in(
                        dir@,
                        name@,
                    )
                } else if v > 0 {
                    &&& r.0.rotated == state.rotated
                    &&& r.0.running == state.running
                    &&& r.0.note@ == state.note@
                    &&& r.1 is None
                } else {
                    &&& r.0.rotated == state.rotated
                    &&& r.0.running == state.running
                    &&& r.0.note@ == bad_orientation_note(state.note@, name@, c)
                    &&& r.1 is None
                }
            },
            Probe::NoTag => {
                &&& r.0.rotated == state.rotated
                &&& r.0.running == state.running
                &&& r.0.note@ == state.note@
                &&& r.1 is None
            },
        },
{
    match probe {
        Probe::NoTag => (state, None),
        Probe::Found(c) => {
            let value: i32 = if char_is_digit(c) {
                char_digit_value(c) as i32
            } else {
                -99
            };
            if value > 0 {
                if value == 3 || value == 6 || value == 8 {
                    let (mode, running) = next_launch(state.running, more_rows);
                    let mut args: Vec<String> = Vec::new();
                    args.push(crate::launch::path_text(dir, name));
                    let job = Job { program: String::from_str("/home/jp/gimp.sh"), args, mode };
                    (RotateAll { rotated: state.rotated + 1, running, note: state.note }, Some(job))
                } else {
                    (state, None)
                }
            } else {
                let mut note = String::from_str(" ");
                note.append(state.note.as_str());
                note.append(" File Ok(");
                note.append(debug_text(name).as_str());
                note.append(") orientation value of ");
                if value == -99 {
                    let mut one = String::new();
                    push_char(&mut one, c);
                    assert(one@ =~= seq![c]);
                    note.append("Some(");
                    note.append(debug_text(one.as_str()).as_str());
                    note.append(") is not an integer");
                } else {
                    note.append(decimal_text(value as u64).as_str());
                    note.append(" is not positive");
                }
                (RotateAll { rotated: state.rotated, running: state.running, note }, None)
            }
        },
    }
}

/// The line "Rotate All" shows at the end.
pub fn rotate_all_notice(state: &RotateAll) -> (r: Notice)
    ensures
        !r.markup,
        r.text@ == "Number of files rotated: "@ + decimal(state.rotated as nat) + " "@
            + state.note@,
{
    let mut s = join("Number of files rotated: ", decimal_text(state.rotated as u64).as_str());
    s.append(" ");
    s.append(state.note.as_str());
    plain(s)
}

// ---------------------------------------------------------------------------
// Turning the selected icons
// ---------------------------------------------------------------------------

/// The three turn buttons of the "Individual Rotation" tab.
#[derive(Clone, Copy, Debug, PartialEq, Eq, Structural)]
pub enum Turn {
    Clockwise,
    CounterClockwise,
    HalfTurn,
}

/// The script each turn button runs on each selected file.
pub open spec fn turn_script(turn: Turn) -> Seq<char> {
    match turn {
        Turn::Clockwise => "/home/jp/gimprotck.sh"@,
        Turn::CounterClockwise => "/home/jp/gimprotcck.sh"@,
        Turn::HalfTurn => "/home/jp/gimprot180.sh"@,
    }
}

/// The start of the line each turn button shows when done.
pub open spec fn turn_done(turn: Turn) -> Seq<char> {
    match turn {
        Turn::Clockwise => "Number of files rotated clockwise: "@,
        Turn::CounterClockwise => "Number of files rotated counter clockwise: "@,
        Turn::HalfTurn => "Number of files rotated 180: "@,
    }
}

fn turn_script_text(turn: Turn) -> (r: String)
    ensures
        r@ == turn_script(turn),
{
    match turn {
        Turn::Clockwise => String::from_str("/home/jp/gimprotck.sh"),
        Turn::CounterClockwise => String::from_str("/home/jp/gimprotcck.sh"),
        Turn::HalfTurn => String::from_str("/home/jp/gimprot180.sh"),
    }
}

fn turn_done_text(turn: Turn) -> (r: String)
    ensures
        r@ == turn_done(turn),
{
    match turn {
        Turn::Clockwise => String::from_str("Number of files rotated clockwise: "),
        Turn::CounterClockwise => String::from_str("Number of files rotated counter clockwise: "),
        Turn::HalfTurn => String::from_str("Number of files rotated 180: "),
    }
}

/// What a turn button does.
pub struct TurnPlan {
    /// The scripts to run, one per selected file, in the order of the selection.
    pub jobs: Vec<Job>,
    /// The line shown once they are started.
    pub notice: Notice,
}

/// Plans a turn button: with icons shown, a directory chosen and icons
/// selected, the turn's script is run on `dir/name` for each selected
/// name, started as the launch rule says; otherwise the reason is shown.
pub fn plan_turns(turn: Turn, has_icons: bool, dir: Option<&str>, names: &Vec<String>) -> (r: Result<
    TurnPlan,
    Notice,
>)
    ensures
        !has_icons ==> (r matches Err(n) && n.markup && n.text@ == alert(
            "Rotate Clockwise: ERROR NOTHING IN LIST"@,
        )),
        has_icons && dir is None ==> (r matches Err(n) && n.markup && n.text@ == alert(
            "Rotate Clockwise: error getting current directory"@,
        )),
        has_icons && dir is Some && names@.len() == 0 ==> (r matches Err(n) && n.markup && n.text@
            == alert("Rotate Clockwise: NOTHING SELECTED"@)),
        has_icons && dir is Some && names@.len() > 0 ==> (r matches Ok(plan) && {
            let d = dir->0;
            let n = names@.len();
            &&& plan.jobs@.len() == n
            &&& forall|k: int|
                0 <= k < n ==> {
                    let job = #[trigger] plan.jobs@[k];
                    &&& job.program@ == turn_script(turn)
                    &&& job.args@.len() == 1
                    &&& job.args@[0]@ == crate::launch::path_in(d@, names@[k]@)
                    &&& job.mode == schedule(crate::launch::run_flags(n), 0)[k]
                }
            &&& !plan.notice.markup
            &&& plan.notice.text@ == turn_done(turn) + decimal(n)
        }),
{
    if !has_icons {
        return Err(alert_notice("Rotate Clockwise: ERROR NOTHING IN LIST"));
    }
    let d = match dir {
        None => return Err(alert_notice("Rotate Clockwise: error getting current directory")),
        Some(d) => d,
    };
    let n = names.len();
    if n == 0 {
        return Err(alert_notice("Rotate Clockwise: NOTHING SELECTED"));
    }
    let ghost flags = crate::launch::run_flags(n as nat);
    let mut jobs: Vec<Job> = Vec::new();
    let mut running: u32 = 0;
    let mut k: usize = 0;
    assert(flags.skip(0) =~= flags);
    while k < n
        invariant
            n == names@.len(),
            flags == crate::launch::run_flags(n as nat),
            k <= n,
            running <= 4,
            jobs@.len() == k,
            schedule(flags, 0) == jobs@.map_values(|j: Job| j.mode) + schedule(
                flags.skip(k as int),
                running as nat,
            ),
            forall|m: int|
                0 <= m < k ==> {
                    let job = #[trigger] jobs@[m];
                    &&& job.program@ == turn_script(turn)
                    &&& job.args@.len() == 1
                    &&& job.args@[0]@ == crate::launch::path_in(d@, names@[m]@)
                },
        decreases n - k,
    {
        let (mode, next) = next_launch(running, k + 1 < n);
        proof {
            crate::launch::lemma_schedule_step(flags, k as int, running as nat);
        }
        let ghost before = jobs@;
        let mut args: Vec<String> = Vec::new();
        args.push(crate::launch::path_text(d, names[k].as_str()));
        jobs.push(Job { program: turn_script_text(turn), args, mode });
        assert(jobs@.map_values(|j: Job| j.mode) =~= before.map_values(|j: Job| j.mode) + seq![
            mode,
        ]);
        running = next;
        k = k + 1;
    }
    proof {
        assert(flags.skip(n as int) =~= Seq::<bool>::empty());
        assert(schedule(flags.skip(n as int), running as nat) =~= Seq::<LaunchMode>::empty());
        assert forall|m: int| 0 <= m < n implies #[trigger] jobs@[m].mode == schedule(flags, 0)[m] by {
            assert(schedule(flags, 0)[m] == jobs@.map_values(|j: Job| j.mode)[m]);
        }
    }
    let mut text = turn_done_text(turn);
    text.append(decimal_text(n as u64).as_str());
    Ok(TurnPlan { jobs, notice: plain(text) })
}

} // verus!

verus! {

/// Every row of the "Rotation Correction" list is one that "Rotate All"
/// turns: its label is `Orientation: ` and the digit 3, 6 or 8, in which
/// `probe_label` finds that digit, and on which `rotate_all_step` runs the
/// rotation script.
pub proof fn lemma_listed_rows_are_turned(files: Seq<crate::orientation::TaggedFile>)
    ensures
        forall|k: int|
            0 <= k < crate::orientation::rotation_rows(files).len() ==> {
                let label = (#[trigger] crate::orientation::rotation_rows(files)[k]).1;
                &&& is_digit_label(label)
                &&& probe_value(label.last()) == 3 || probe_value(label.last()) == 6 || probe_value(
                    label.last(),
                ) == 8
            },
    decreases files.len(),
{
    if files.len() > 0 {
        let rest = files.drop_last();
        lemma_listed_rows_are_turned(rest);
        let rows = crate::orientation::rotation_rows(files);
        let before = crate::orientation::rotation_rows(rest);
        let f = files.last();
        if let crate::orientation::OrientationTag::Value(n) = f.tag {
            if n == 3 || n == 6 || n == 8 {
                let label = crate::orientation::orientation_label(n as nat);
                assert(rows == before.push((f.name@, label)));
                assert(crate::text::decimal(n as nat) =~= seq![digit_char_of(n as int)]);
                crate::text::lemma_decimal_digits(n as nat);
                assert(label.last() == digit_char_of(n as int));
                crate::text::lemma_digit_char(n as int);
                let m: int = n as int;
                assert(label == crate::orientation::orientation_label(m as nat));
                assert(is_digit_label(label));
                assert(probe_value(label.last()) == m);
                assert forall|k: int| 0 <= k < rows.len() implies {
                    let l = (#[trigger] rows[k]).1;
                    &&& is_digit_label(l)
                    &&& probe_value(l.last()) == 3 || probe_value(l.last()) == 6 || probe_value(
                        l.last(),
                    ) == 8
                } by {
                    if k == rows.len() - 1 {
                        assert(rows[k].1 == label);
                    } else {
                        assert(rows[k] == before[k]);
                    }
                }
            }
        }
    }
}

} // verus!
