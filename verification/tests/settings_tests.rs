use mushy::launch::{daemon_args, is_run_file_name, run_file_name};
use mushy::settings::{
    cell_dimensions, default_rotate_clockwise, default_target_size, pseudo_random_seed,
    resolve_settings, walk_margins, Commands, DEFAULT_TARGET_SIZE,
};

#[test]
fn defaults() {
    assert_eq!(default_target_size(), 40);
    assert_eq!(DEFAULT_TARGET_SIZE, 40);
    assert!(!default_rotate_clockwise());
}

#[test]
fn command_line_overrides_config() {
    let s = resolve_settings(Some("a.gif".to_string()), false, Some(60), Some("b.gif".to_string()), true, 40);
    assert_eq!(s.gif_path.as_deref(), Some("a.gif"));
    assert!(s.rotate_clockwise);
    assert_eq!(s.target_size, 60);
    let s = resolve_settings(None, false, None, Some("b.gif".to_string()), false, 33);
    assert_eq!(s.gif_path.as_deref(), Some("b.gif"));
    assert!(!s.rotate_clockwise);
    assert_eq!(s.target_size, 33);
    let s = resolve_settings(None, true, None, None, false, 40);
    assert_eq!(s.gif_path, None);
    assert!(s.rotate_clockwise);
}

#[test]
fn cell_size_from_window_size() {
    assert_eq!(cell_dimensions(true, 80, 24, 800, 480), (10, 20));
    assert_eq!(cell_dimensions(true, 100, 50, 900, 1000), (9, 20));
    assert_eq!(cell_dimensions(true, 80, 24, 0, 0), (10, 20));
    assert_eq!(cell_dimensions(false, 80, 24, 1600, 960), (10, 20));
    assert_eq!(cell_dimensions(true, 0, 24, 1600, 240), (10, 10));
}

#[test]
fn seed_mixes_pid_and_time() {
    assert_eq!(pseudo_random_seed(0, 5), 5);
    assert_eq!(pseudo_random_seed(0b1010, 0b0110), 0b1100);
    assert_eq!(pseudo_random_seed(1, (1u128 << 40) + 3), 2);
}

#[test]
fn margins_leave_one_cell() {
    assert_eq!(walk_margins(4, 2), (5, 3));
}

#[test]
fn stop_command() {
    let c = Commands::Stop { all: true };
    match c {
        Commands::Stop { all } => assert!(all),
    }
}

#[test]
fn run_file_names() {
    assert_eq!(run_file_name(Some("/dev/pts/3")), "mushy._dev_pts_3.run");
    assert_eq!(run_file_name(None), "mushy.unknown.run");
    assert!(is_run_file_name(&run_file_name(Some("/dev/ttys001"))));
    assert!(is_run_file_name("mushy.run"));
    assert!(!is_run_file_name("mushy.runx"));
    assert!(!is_run_file_name("other._dev_pts_3.run"));
    assert!(!is_run_file_name(".run"));
}

#[test]
fn daemon_arguments() {
    let args = daemon_args("/tmp/mushy.x.run", Some("c.toml"), None, Some(60), Some("2.5"), true);
    assert_eq!(
        args,
        vec!["--daemon", "--run-file", "/tmp/mushy.x.run", "--config", "c.toml", "--size", "60", "--speed", "2.5", "--cw"]
    );
    let args = daemon_args("r", None, Some("g.gif"), None, None, false);
    assert_eq!(args, vec!["--daemon", "--run-file", "r", "--gif", "g.gif"]);
}
