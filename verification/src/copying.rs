//! "Copy" on the "Convert to 1080" tab: each listed file is converted with
//! ImageMagick's `convert` into the output directory, fitted to 1920×1080 on
//! a black background.

use vstd::prelude::*;
use crate::launch::{Job, LaunchMode, next_launch, path_in, path_text, schedule, spec_next_launch};
use crate::notice::{Notice, alert, alert_notice, alert_owned, join, plain};
use crate::sorting::texts;
use crate::text::{decimal, decimal_text};

verus! {

/// Why "Copy" does nothing: the list is empty (never filled), or no input
/// or no output directory is chosen.
pub fn copy_refusal(has_list: bool, has_input: bool, has_output: bool) -> (r: Option<Notice>)
    ensures
        !has_list ==> (r matches Some(n) && n.markup && n.text@ == alert(
            "Copy convert: ERROR NOTHING IN LIST"@,
        )),
        has_list && !has_input ==> (r matches Some(n) && n.markup && n.text@ == alert(
            "List: ERROR GETTING DIRECTORY IN COMBOBOX"@,
        )),
        has_list && has_input && !has_output ==> (r matches Some(n) && n.markup && n.text@
            == alert("List: ERROR GETTING output DIRECTORY IN COMBOBOX"@)),
        has_list && has_input && has_output ==> r is None,
{
    if !has_list {
        Some(alert_notice("Copy convert: ERROR NOTHING IN LIST"))
    } else if !has_input {
        Some(alert_notice("List: ERROR GETTING DIRECTORY IN COMBOBOX"))
    } else if !has_output {
        Some(alert_notice("List: ERROR GETTING output DIRECTORY IN COMBOBOX"))
    } else {
        None
    }
}

/// "Copy" refuses an output directory that already holds files.
pub fn output_directory_check(files_in_output: usize) -> (r: Option<Notice>)
    ensures
        files_in_output > 0 ==> (r matches Some(n) && n.markup && n.text@
            == "<span color=\"#FF000000\">********* Copy convert: ERROR Output directory is not empty ******</span>"@),
        files_in_output == 0 ==> r is None,
{
    if files_in_output > 0 {
        Some(
            Notice {
                markup: true,
                text: String::from_str(
                    "<span color=\"#FF000000\">********* Copy convert: ERROR Output directory is not empty ******</span>",
                ),
            },
        )
    } else {
        None
    }
}

/// What "Copy" has done so far, row by row.
pub struct CopyRun {
    /// The rows handled.
    pub copied: u32,
    /// The conversions started in the background since the last one waited for.
    pub running: u32,
}

/// What "Copy" does with one row.
pub enum CopyOutcome {
    /// Stop, and show this error line.
    Stop(Notice),
    /// Run this conversion, and go on.
    Run(Job),
}

/// The arguments `convert` is given to fit `source` into 1920×1080 on black,
/// writing `target`.
pub open spec fn convert_args(source: Seq<char>, target: Seq<char>) -> Seq<Seq<char>> {
    seq![
        source,
        "-resize"@,
        "1920x1080"@,
        "-background"@,
        "black"@,
        "-gravity"@,
        "center"@,
        "-extent"@,
        "1920x1080"@,
        target,
    ]
}

/// One row of "Copy", as plain values: the paths read and written, whether
/// the file to read exists, whether the file to write already exists.
pub type CopyRow = (Seq<char>, Seq<char>, bool, bool);

/// Whether "Copy" stops on a row: its file to read is missing, or its file
/// to write is already there.
pub open spec fn blocks(row: CopyRow) -> bool {
    !row.2 || row.3
}

/// The error line "Copy" stops with on a row that blocks it.
pub open spec fn stop_text(row: CopyRow) -> Seq<char> {
    if !row.2 {
        alert("Copy convert: ERROR "@ + row.0 + " does not exist"@)
    } else {
        alert("Copy convert: ERROR "@ + row.1 + " already exists"@)
    }
}

/// One row of "Copy" on plain values: the new (rows handled, background
/// count), and the command to run (`Ok`) or the error line to stop with (`Err`).
pub open spec fn spec_copy_step(s: (nat, nat), row: CopyRow, more_rows: bool) -> (
    (nat, nat),
    Result<(Seq<char>, Seq<Seq<char>>, LaunchMode), Seq<char>>,
) {
    if blocks(row) {
        ((s.0 + 1, s.1), Err(stop_text(row)))
    } else {
        let (mode, next) = spec_next_launch(s.1, more_rows);
        ((s.0 + 1, next), Ok(("convert"@, convert_args(row.0, row.1), mode)))
    }
}

/// "Copy" over rows in order, from the state `s`, stopping at the first row
/// that blocks it: the state at the end, the commands run, and the error
/// line it stopped with, if any.
pub open spec fn copy_run(rows: Seq<CopyRow>, s: (nat, nat)) -> (
    (nat, nat),
    Seq<(Seq<char>, Seq<Seq<char>>, LaunchMode)>,
    Option<Seq<char>>,
)
    decreases rows.len(),
{
    if rows.len() == 0 {
        (s, Seq::empty(), None)
    } else {
        let (s1, out) = spec_copy_step(s, rows[0], rows.len() > 1);
        match out {
            Err(text) => (s1, Seq::empty(), Some(text)),
            Ok(job) => {
                let (s2, jobs, stop) = copy_run(rows.drop_first(), s1);
                (s2, seq![job] + jobs, stop)
            },
        }
    }
}

/// The number of rows before the first one that blocks "Copy".
pub open spec fn clear_rows(rows: Seq<CopyRow>) -> nat
    decreases rows.len(),
{
    if rows.len() == 0 || blocks(rows[0]) {
        0
    } else {
        1 + clear_rows(rows.drop_first())
    }
}

/// A whole run of "Copy": the rows before the first blocking one each get a
/// `convert` command, in order, started as the launch schedule of "a row
/// follows" says; at a blocking row "Copy" stops with the line that names
/// its path, having counted that row; with no blocking row it counts every
/// row (the count "Number of files copied" reports).
pub proof fn lemma_copy_run(rows: Seq<CopyRow>, s: (nat, nat))
    requires
        s.1 <= 4,
    ensures
        ({
            let (fin, jobs, stop) = copy_run(rows, s);
            let k0 = clear_rows(rows);
            let n = rows.len();
            &&& k0 <= n
            &&& jobs.len() == k0
            &&& forall|k: int|
                0 <= k < k0 ==> #[trigger] jobs[k] == (
                    "convert"@,
                    convert_args(rows[k].0, rows[k].1),
                    schedule(crate::launch::run_flags(n), s.1)[k],
                )
            &&& k0 < n ==> stop == Some(stop_text(rows[k0 as int])) && fin.0 == s.0 + k0 + 1
            &&& k0 == n ==> stop is None && fin.0 == s.0 + n
        }),
    decreases rows.len(),
{
    if rows.len() > 0 {
        let n = rows.len();
        let (s1, out) = spec_copy_step(s, rows[0], n > 1);
        if !blocks(rows[0]) {
            let rest = rows.drop_first();
            lemma_copy_run(rest, s1);
            let (fin, jobs, stop) = copy_run(rows, s);
            let (fin1, jobs1, stop1) = copy_run(rest, s1);
            let (mode, next) = spec_next_launch(s.1, n > 1);
            let flags = crate::launch::run_flags(n);
            let flags1 = crate::launch::run_flags((n - 1) as nat);
            assert(flags.drop_first() =~= flags1);
            assert(flags[0] == (n > 1));
            assert(schedule(flags, s.1) =~= seq![mode] + schedule(flags1, next));
            crate::launch::lemma_schedule_bounded(flags1, next);
            assert(clear_rows(rows) == 1 + clear_rows(rest));
            assert forall|k: int| 0 <= k < clear_rows(rows) implies #[trigger] jobs[k] == (
                "convert"@,
                convert_args(rows[k].0, rows[k].1),
                schedule(flags, s.1)[k],
            ) by {
                if k > 0 {
                    assert(jobs[k] == jobs1[k - 1]);
                    assert(rows[k] == rest[k - 1]);
                    assert(schedule(flags, s.1)[k] == schedule(flags1, next)[k - 1]);
                }
            }
            if clear_rows(rows) < n {
                assert(rows[clear_rows(rows) as int] == rest[clear_rows(rest) as int]);
            }
        }
    }
}

/// "Copy" before the first row.
pub fn copy_begin() -> (r: CopyRun)
    ensures
        r.copied == 0,
        r.running == 0,
{
    CopyRun { copied: 0, running: 0 }
}

/// The paths a row's file is read from and written to: `input/name` and
/// `output/name`.
pub fn copy_paths(input: &str, output: &str, name: &str) -> (r: (String, String))
    ensures
        r.0@ == path_in(input@, name@),
        r.1@ == path_in(output@, name@),
{
    (path_text(input, name), path_text(output, name))
}

/// One row of "Copy": the row is counted; if the file to read is missing,
/// or the file to write is already there, "Copy" stops with an error line;
/// otherwise `convert` is run on it, started as the launch rule says.
pub fn copy_step(
    state: CopyRun,
    source: &str,
    target: &str,
    source_exists: bool,
    target_exists: bool,
    more_rows: bool,
) -> (r: (CopyRun, CopyOutcome))
    requires
        state.copied < i32::MAX,
        state.running <= 4,
    ensures
        ((r.0.copied as nat, r.0.running as nat), match r.1 {
            CopyOutcome::Stop(n) => Err(n.text@),
            CopyOutcome::Run(job) => Ok(crate::launch::job_view(job)),
        }) == spec_copy_step(
            (state.copied as nat, state.running as nat),
            (source@, target@, source_exists, target_exists),
            more_rows,
        ),
        r.0.copied == state.copied + 1,
        r.0.running <= 4,
        !source_exists || target_exists ==> r.0.running == state.running,
        !source_exists ==> (r.1 matches CopyOutcome::Stop(n) && n.markup && n.text@ == alert(
            "Copy convert: ERROR "@ + source@ + " does not exist"@,
        )),
        source_exists && target_exists ==> (r.1 matches CopyOutcome::Stop(n) && n.markup
            && n.text@ == alert("Copy convert: ERROR "@ + target@ + " already exists"@)),
        source_exists && !target_exists ==> ({
            let (mode, next) = spec_next_launch(state.running as nat, more_rows);
            &&& r.0.running == next
            &&& r.1 matches CopyOutcome::Run(job) && job.program@ == "convert"@ && job.mode
                == mode && texts(job.args@) == convert_args(source@, target@)
        }),
{
    let copied = state.copied + 1;
    if !source_exists {
        let mut body = join("Copy convert: ERROR ", source);
        body.append(" does not exist");
        return (CopyRun { copied, running: state.running }, CopyOutcome::Stop(alert_owned(body)));
    }
    if target_exists {
        let mut body = join("Copy convert: ERROR ", target);
        body.append(" already exists");
        return (CopyRun { copied, running: state.running }, CopyOutcome::Stop(alert_owned(body)));
    }
    let (mode, running) = next_launch(state.running, more_rows);
    let mut args: Vec<String> = Vec::new();
    args.push(String::from_str(source));
    args.push(String::from_str("-resize"));
    args.push(String::from_str("1920x1080"));
    args.push(String::from_str("-background"));
    args.push(String::from_str("black"));
    args.push(String::from_str("-gravity"));
    args.push(String::from_str("center"));
    args.push(String::from_str("-extent"));
    args.push(String::from_str("1920x1080"));
    args.push(String::from_str(target));
    assert(texts(args@) =~= convert_args(source@, target@));
    let job = Job { program: String::from_str("convert"), args, mode };
    (CopyRun { copied, running }, CopyOutcome::Run(job))
}

/// The line "Copy" shows when every row was converted.
pub fn copy_done_notice(state: &CopyRun) -> (r: Notice)
    ensures
        !r.markup,
        r.text@ == "Number of files copied: "@ + decimal(state.copied as nat),
{
    plain(join("Number of files copied: ", decimal_text(state.copied as u64).as_str()))
}

} // verus!
