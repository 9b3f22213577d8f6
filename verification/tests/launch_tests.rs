use ps3dec_gui::config::AppConfig;
use ps3dec_gui::launch::command_display;
use ps3dec_gui::launch::plan_launch;
use ps3dec_gui::launch::LaunchDecision;

fn config(iso: &str, exe: &str, key: &str, threads: u32, auto: bool) -> AppConfig {
    AppConfig {
        iso_path: iso.to_string(),
        decryption_key: key.to_string(),
        thread_count: threads,
        auto,
        ps3dec_path: exe.to_string(),
    }
}

fn args_of(decision: LaunchDecision) -> Vec<String> {
    match decision {
        LaunchDecision::Run(args) => args,
        _ => panic!("expected a runnable plan"),
    }
}

#[test]
fn auto_args_carry_auto_and_no_dk() {
    let c = config("game.iso", "/opt/ps3dec", "ignored", 4, true);
    let args = args_of(plan_launch(&c));
    assert_eq!(
        args,
        vec![
            "--iso".to_string(),
            "game.iso".to_string(),
            "--auto".to_string(),
            "--tc".to_string(),
            "4".to_string(),
            "--skip".to_string(),
        ]
    );
    assert!(args.contains(&"--auto".to_string()));
    assert!(!args.contains(&"--dk".to_string()));
}

#[test]
fn manual_args_carry_dk_and_no_auto() {
    let c = config("game.iso", "/opt/ps3dec", "0123abcd", 1, false);
    let args = args_of(plan_launch(&c));
    assert_eq!(
        args,
        vec![
            "--iso".to_string(),
            "game.iso".to_string(),
            "--dk".to_string(),
            "0123abcd".to_string(),
            "--tc".to_string(),
            "1".to_string(),
            "--skip".to_string(),
        ]
    );
    assert!(!args.contains(&"--auto".to_string()));
    let dk_pos = args.iter().position(|a| a == "--dk").unwrap();
    assert_eq!(args[dk_pos + 1], "0123abcd");
}

#[test]
fn empty_iso_refuses_launch() {
    let c = config("", "/opt/ps3dec", "key", 2, false);
    let d = plan_launch(&c);
    assert!(matches!(d, LaunchDecision::MissingIso));
    assert_eq!(d.status_message().unwrap(), "Please select an ISO file.");
}

#[test]
fn empty_executable_refuses_launch() {
    let c = config("game.iso", "", "key", 2, false);
    let d = plan_launch(&c);
    assert!(matches!(d, LaunchDecision::MissingExecutable));
    assert_eq!(
        d.status_message().unwrap(),
        "Please select the ps3dec executable."
    );
}

#[test]
fn empty_key_without_auto_refuses_launch() {
    let c = config("game.iso", "/opt/ps3dec", "", 2, false);
    let d = plan_launch(&c);
    assert!(matches!(d, LaunchDecision::MissingKey));
    assert_eq!(d.status_message().unwrap(), "Please enter a decryption key.");
}

#[test]
fn empty_key_with_auto_is_allowed() {
    let c = config("game.iso", "/opt/ps3dec", "", 2, true);
    let d = plan_launch(&c);
    assert!(d.status_message().is_none());
    assert!(matches!(d, LaunchDecision::Run(_)));
}

#[test]
fn validation_order_reports_iso_first() {
    let c = config("", "", "", 2, false);
    let d = plan_launch(&c);
    assert!(matches!(d, LaunchDecision::MissingIso));
}

#[test]
fn command_display_joins_everything() {
    let args = vec![
        "--iso".to_string(),
        "game.iso".to_string(),
        "--auto".to_string(),
        "--tc".to_string(),
        "4".to_string(),
        "--skip".to_string(),
    ];
    assert_eq!(
        command_display("/opt/ps3dec", &args),
        "Running command: /opt/ps3dec --iso game.iso --auto --tc 4 --skip"
    );
}
