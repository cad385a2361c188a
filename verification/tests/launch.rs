use omnis_app::launch::{parse_args, script_steps, DevSocket, Look, SizeClass};

fn args(list: &[&str]) -> Vec<String> {
    list.iter().map(|a| (*a).to_owned()).collect()
}

#[test]
fn no_arguments_open_the_menus_on_the_test_pack() {
    let launch = parse_args(&[], 77).unwrap();
    assert_eq!(launch.config.packs, ["packs/test"]);
    assert_eq!(launch.config.seed, 77, "the entropy seeds the world");
    assert_eq!(launch.config.save_path, ".omnis/quick.ron");
    assert!(!launch.config.autostart);
    assert_eq!(launch.window, None, "the whole screen");
    assert_eq!(launch.look, Look::default());
}

#[test]
fn a_seed_is_an_unattended_run_in_a_small_window() {
    let launch = parse_args(&args(&["--pack", "packs/base", "--pack", "mods", "--seed", "42", "--save", "s.ron"]), 7).unwrap();
    assert_eq!(launch.config.packs, ["packs/base", "mods"]);
    assert_eq!(launch.config.seed, 42);
    assert_eq!(launch.config.save_path, "s.ron");
    assert!(launch.config.autostart);
    assert_eq!(launch.window, Some(SizeClass::Small));
    let launch = parse_args(&args(&["--seed", "+5", "--window", "huge"]), 7).unwrap();
    assert_eq!((launch.config.seed, launch.window), (5, Some(SizeClass::Huge)));
    let launch = parse_args(&args(&["--autostart", "--window", "medium", "--font", "2", "--ui-scale", "150", "--frame-stats"]), 7).unwrap();
    assert!(launch.config.autostart);
    assert_eq!(launch.window, Some(SizeClass::Medium));
    assert_eq!(launch.look, Look { font: 2, scale: Some(150), frame_stats: true });
}

#[test]
fn a_bad_argument_is_refused_with_its_reason() {
    let refuse = |list: &[&str]| parse_args(&args(list), 0).unwrap_err();
    assert_eq!(refuse(&["--pack"]), "--pack needs a directory");
    assert_eq!(refuse(&["--seed"]), "--seed needs a number");
    assert_eq!(refuse(&["--seed", "x1"]), "bad seed 'x1'");
    assert_eq!(refuse(&["--seed", "18446744073709551616"]), "bad seed '18446744073709551616'");
    assert_eq!(refuse(&["--save"]), "--save needs a file");
    assert_eq!(refuse(&["--window"]), "--window needs small|medium|large|huge");
    assert_eq!(refuse(&["--window", "tiny"]), "bad window size 'tiny': small|medium|large|huge");
    assert_eq!(refuse(&["--font"]), "--font needs 0, 1 or 2");
    assert_eq!(refuse(&["--ui-scale", "70000"]), "bad --ui-scale '70000'");
    assert_eq!(refuse(&["--fullscreen"]), "unknown argument '--fullscreen'");
    assert_eq!(refuse(&["--seed", "1", "--oops"]), "unknown argument '--oops'");
}

#[test]
fn a_script_or_a_capture_is_an_unattended_run_too() {
    let launch = parse_args(&args(&["--script", " forward, ,turn-left ,attack-2,"]), 7).unwrap();
    assert_eq!(launch.script.steps, ["forward", "turn-left", "attack-2"]);
    assert!(launch.config.autostart);
    assert_eq!(launch.window, Some(SizeClass::Small));
    assert_eq!(launch.config.seed, 7, "no seed was given");
    assert_eq!(launch.socket, DevSocket::Default, "the socket listens unless told not to");
    let launch = parse_args(&args(&["--settle", "5", "--screenshot-canvas", "c.png", "--window", "large"]), 7).unwrap();
    assert_eq!(launch.script.screenshot.as_deref(), Some("c.png"));
    assert_eq!(launch.script.settle_frames, 30, "a capture settles at least 30 frames");
    assert!(launch.script.canvas && !launch.script.composed);
    assert!(launch.config.autostart);
    assert_eq!(launch.window, Some(SizeClass::Large));
    let launch = parse_args(&args(&["--screenshot-composed", "w.png", "--settle", "5", "--no-dev-socket"]), 7).unwrap();
    assert_eq!(launch.script.settle_frames, 5);
    assert!(launch.script.composed && !launch.script.canvas);
    assert_eq!(launch.socket, DevSocket::Off);
    let launch = parse_args(&args(&["--no-dev-socket", "--dev-socket", "127.0.0.1:0"]), 7).unwrap();
    assert_eq!(launch.socket, DevSocket::At("127.0.0.1:0".to_owned()));
    assert!(!launch.config.autostart, "a socket alone is not unattended");
    let empty = parse_args(&args(&["--script", " , "]), 7).unwrap();
    assert!(!empty.config.autostart, "an empty script is no script");
}

#[test]
fn a_bad_dev_switch_is_refused_with_its_reason() {
    let refuse = |list: &[&str]| parse_args(&args(list), 0).unwrap_err();
    assert_eq!(refuse(&["--script"]), "--script needs steps");
    assert_eq!(refuse(&["--screenshot-composed"]), "--screenshot-composed needs a file");
    assert_eq!(refuse(&["--dev-socket"]), "--dev-socket needs <ip:port>");
    assert_eq!(refuse(&["--settle"]), "--settle needs a frame count");
    assert_eq!(refuse(&["--settle", "4294967296"]), "bad frame count '4294967296'");
}

#[test]
fn script_words_are_split_at_commas_and_trimmed() {
    assert_eq!(script_steps("map,save , load"), ["map", "save", "load"]);
    assert!(script_steps("").is_empty());
    assert_eq!(script_steps("party"), ["party"]);
}
