use photorotate::launch::{next_launch, path_text, LaunchMode};

#[test]
fn next_launch_rule() {
    assert_eq!(next_launch(0, true), (LaunchMode::Spawn, 1));
    assert_eq!(next_launch(3, true), (LaunchMode::Spawn, 4));
    assert_eq!(next_launch(4, true), (LaunchMode::Wait, 0));
    assert_eq!(next_launch(0, false), (LaunchMode::Wait, 0));
    assert_eq!(next_launch(2, false), (LaunchMode::Wait, 0));
}

#[test]
#[allow(non_snake_case)]
fn a_run_of_ten_commands() {
    let mut running = 0;
    let mut modes = Vec::new();
    for k in 0..10 {
        let (mode, next) = next_launch(running, k + 1 < 10);
        modes.push(mode);
        running = next;
    }
    let (S, W) = (LaunchMode::Spawn, LaunchMode::Wait);
    assert_eq!(modes, vec![S, S, S, S, W, S, S, S, S, W]);
    for window in modes.windows(5) {
        assert!(window.contains(&W));
    }
}

#[test]
fn path_text_joins_with_a_slash() {
    assert_eq!(path_text("/home/jp/photos", "a.jpg"), "/home/jp/photos/a.jpg");
    assert_eq!(path_text("/", "a.jpg"), "//a.jpg");
}
