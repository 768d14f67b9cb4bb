use photorotate::launch::LaunchMode;
use photorotate::rotation::{
    plan_turns, probe_label, probe_text, rotate_all_begin, rotate_all_notice, rotate_all_refusal, rotate_all_step,
    row_view_text, Probe, Turn,
};

#[test]
fn row_view_is_the_debug_of_ok() {
    let label = "Orientation: 6".to_string();
    let value: Result<String, ()> = Ok(label.clone());
    assert_eq!(row_view_text(&label), format!("{:?}", value));
    assert_eq!(row_view_text("a\"b"), "Ok(\"a\\\"b\")");
}

#[test]
fn probe_reads_the_digit() {
    assert_eq!(probe_label("Orientation: 6"), Some(Probe::Found('6')));
    assert_eq!(probe_label("Orientation: 3"), Some(Probe::Found('3')));
    assert_eq!(probe_label("Meta error : x"), Some(Probe::NoTag));
    assert_eq!(probe_label("Orientation:x6"), Some(Probe::Found('6')));
    assert_eq!(probe_label("Orientation:  6"), Some(Probe::Found(' ')));
    assert_eq!(probe_text("xOrientation: 8, Orientation: 3"), Probe::Found('8'));
    assert_eq!(probe_text("abOrientation: 5"), Probe::Found('5'));
    assert_eq!(probe_text("Orientation:5xyz"), Probe::Found('x'));
    assert_eq!(probe_text("Orientation..8"), Probe::Found('8'));
    assert_eq!(probe_text("Orientatio"), Probe::NoTag);
}

/// The reading "Rotate All" does, written as the window does it.
fn window_reading(strval: &str) -> Option<Probe> {
    match strval.find("Orientation") {
        None => Some(Probe::NoTag),
        Some(start) => {
            let start = start + 13;
            strval.get(start..start + 1).map(|s| Probe::Found(s.chars().next().unwrap()))
        }
    }
}

#[test]
fn probe_agrees_with_the_window() {
    for label in ["Orientation: 6", "Orientation: 8", "no Value: x", "Orientation: 10", "é Orientation: 3", "Orientation", "Orientation: é", "ééOrientation: 1"] {
        let view = format!("{:?}", Ok::<String, ()>(label.to_string()));
        assert_eq!(probe_label(label), window_reading(&view), "{:?}", label);
    }
}

#[test]
fn probe_where_rotate_all_panics() {
    assert_eq!(probe_label("Orientation"), None);
    assert_eq!(probe_label("Orientation: é"), None);
}

#[test]
fn rotate_all_rows() {
    let s = rotate_all_begin();
    let (s, job) = rotate_all_step(s, "/p", "a.jpg", Probe::Found('6'), true);
    let job = job.unwrap();
    assert_eq!(job.program, "/home/jp/gimp.sh");
    assert_eq!(job.args, vec!["/p/a.jpg"]);
    assert_eq!(job.mode, LaunchMode::Spawn);
    let (s, job) = rotate_all_step(s, "/p", "b.jpg", Probe::Found('1'), true);
    assert!(job.is_none());
    let (s, job) = rotate_all_step(s, "/p", "c.jpg", Probe::NoTag, true);
    assert!(job.is_none());
    let (s, job) = rotate_all_step(s, "/p", "d.jpg", Probe::Found('8'), false);
    assert_eq!(job.unwrap().mode, LaunchMode::Wait);
    assert_eq!(s.rotated, 2);
    assert_eq!(s.running, 0);
    let n = rotate_all_notice(&s);
    assert!(!n.markup);
    assert_eq!(n.text, "Number of files rotated: 2  ");
}

#[test]
fn rotate_all_notes() {
    let s = rotate_all_begin();
    let (s, _) = rotate_all_step(s, "/p", "x.jpg", Probe::Found(':'), true);
    let (s, _) = rotate_all_step(s, "/p", "y.jpg", Probe::Found('0'), true);
    let msgvar = format!(" {} File {:?} orientation value of {:?} is not an integer", " ", Ok::<String, ()>("x.jpg".to_string()), Some(":"));
    let msgvar = format!(" {} File {:?} orientation value of {} is not positive", msgvar, Ok::<String, ()>("y.jpg".to_string()), 0);
    assert_eq!(s.note, msgvar);
    assert_eq!(rotate_all_notice(&s).text, format!("Number of files rotated: 0 {}", msgvar));
}

#[test]
fn rotate_all_refusals() {
    assert_eq!(rotate_all_refusal(false, true).unwrap().text, "<span color=\"#FF000000\">********* Rotate All: ERROR NOTHING IN LIST **********</span>");
    assert_eq!(rotate_all_refusal(true, false).unwrap().text, "<span color=\"#FF000000\">********* List: ERROR GETTING DIRECTORY IN COMBOBOX **********</span>");
    assert!(rotate_all_refusal(true, true).is_none());
}

#[test]
#[allow(non_snake_case)]
fn turns() {
    let names: Vec<String> = (1..=6).map(|i| format!("{}.jpg", i)).collect();
    let plan = plan_turns(Turn::Clockwise, true, Some("/d"), &names).ok().unwrap();
    assert_eq!(plan.jobs.len(), 6);
    let (S, W) = (LaunchMode::Spawn, LaunchMode::Wait);
    let modes: Vec<LaunchMode> = plan.jobs.iter().map(|j| j.mode).collect();
    assert_eq!(modes, vec![S, S, S, S, W, W]);
    assert_eq!(plan.jobs[2].program, "/home/jp/gimprotck.sh");
    assert_eq!(plan.jobs[2].args, vec!["/d/3.jpg"]);
    assert_eq!(plan.notice.text, "Number of files rotated clockwise: 6");
    let plan = plan_turns(Turn::CounterClockwise, true, Some("/d"), &names[..1].to_vec()).ok().unwrap();
    assert_eq!(plan.jobs[0].program, "/home/jp/gimprotcck.sh");
    assert_eq!(plan.jobs[0].mode, W);
    assert_eq!(plan.notice.text, "Number of files rotated counter clockwise: 1");
    let plan = plan_turns(Turn::HalfTurn, true, Some("/d"), &names[..2].to_vec()).ok().unwrap();
    assert_eq!(plan.jobs[1].program, "/home/jp/gimprot180.sh");
    assert_eq!(plan.notice.text, "Number of files rotated 180: 2");
}

#[test]
fn turn_refusals() {
    let names = vec!["a.jpg".to_string()];
    let alert = |b: &str| format!("<span color=\"#FF000000\">********* {} **********</span>", b);
    assert_eq!(plan_turns(Turn::HalfTurn, false, Some("/d"), &names).err().unwrap().text, alert("Rotate Clockwise: ERROR NOTHING IN LIST"));
    assert_eq!(plan_turns(Turn::HalfTurn, true, None, &names).err().unwrap().text, alert("Rotate Clockwise: error getting current directory"));
    assert_eq!(plan_turns(Turn::Clockwise, true, Some("/d"), &Vec::new()).err().unwrap().text, alert("Rotate Clockwise: NOTHING SELECTED"));
}
