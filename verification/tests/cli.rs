use wind_portable::cli::{parse, run_cli, status_line, step_report, CliOptions, CliStep};

fn p(args: &[&str]) -> CliOptions {
    parse(&args.iter().map(|s| s.to_string()).collect::<Vec<_>>())
}

#[test]
fn empty_has_no_action() {
    let o = p(&[]);
    assert!(!o.has_action());
    assert!(!o.ui);
}

#[test]
fn parses_each_flag_both_dashes() {
    assert!(p(&["-start"]).start);
    assert!(p(&["--start"]).start);
    assert!(p(&["-STOP"]).stop);
    assert!(p(&["--status"]).status);
    assert!(p(&["-settings"]).settings);
    assert!(p(&["-userdata"]).userdata);
    assert!(p(&["-ui"]).ui);
    assert!(p(&["-elevate-register"]).elevate_register);
    assert!(p(&["-elevate-unregister"]).elevate_unregister);
}

#[test]
fn has_action_covers_actions_not_ui() {
    assert!(p(&["-start"]).has_action());
    assert!(p(&["-elevate-register"]).has_action());
    assert!(!p(&["-ui"]).has_action());
}

#[test]
fn ignores_unknown() {
    let o = p(&["--frobnicate", "-start", "junk"]);
    assert!(o.start);
    assert!(!o.stop);
}

#[test]
fn elevated_flags_take_one_dash_or_two() {
    for flag in ["-elevate-register", "--elevate-register", "--Elevate-Register"] {
        assert_eq!(
            p(&[flag]),
            CliOptions { elevate_register: true, ..CliOptions::default() }
        );
    }
    for flag in ["-elevate-unregister", "--elevate-unregister", "-ELEVATE-unregister"] {
        assert_eq!(
            p(&[flag]),
            CliOptions { elevate_unregister: true, ..CliOptions::default() }
        );
    }
    assert_eq!(p(&["---elevate-register", "elevate-register"]), CliOptions::default());
}

#[test]
fn order_and_repetition_do_not_matter() {
    assert_eq!(p(&["-stop", "-start"]), p(&["-start", "--STOP", "-start"]));
}

#[test]
fn ui_keeps_the_window() {
    assert!(p(&["-start"]).is_headless());
    assert!(!p(&["-start", "-ui"]).is_headless());
    assert!(!p(&["-ui"]).is_headless());
    assert!(!p(&[]).is_headless());
}

#[test]
fn steps_come_in_a_fixed_order() {
    let steps = run_cli(&p(&["-userdata", "-settings", "-status", "-stop", "-start"]), None).unwrap();
    assert_eq!(
        steps,
        vec![
            CliStep::Start,
            CliStep::Stop,
            CliStep::Status,
            CliStep::Settings,
            CliStep::Userdata
        ]
    );
}

#[test]
fn elevated_steps_stand_alone() {
    let register = run_cli(&p(&["-start", "-elevate-unregister", "-elevate-register"]), None);
    assert_eq!(register.unwrap(), vec![CliStep::RegisterDirect]);
    let unregister = run_cli(&p(&["-start", "-elevate-unregister"]), None);
    assert_eq!(unregister.unwrap(), vec![CliStep::UnregisterDirect]);
}

#[test]
fn no_package_means_no_steps() {
    let r = run_cli(&p(&["-elevate-register"]), Some("未找到".to_string()));
    assert_eq!(r.unwrap_err(), "未找到");
}

#[test]
fn status_lines() {
    assert_eq!(status_line(true, None), "service=running");
    assert_eq!(status_line(false, None), "service=stopped");
    assert_eq!(
        status_line(true, Some("占用")),
        "service=running mode=conflict reason=\"占用\""
    );
}

#[test]
fn step_reports() {
    assert_eq!(step_report(CliStep::Start, true), Some("service started"));
    assert_eq!(step_report(CliStep::Stop, true), Some("service stopped"));
    assert_eq!(step_report(CliStep::Stop, false), Some("service not running"));
    assert_eq!(step_report(CliStep::Settings, true), Some("settings opened"));
    assert_eq!(step_report(CliStep::Userdata, true), Some("userdata opened"));
    assert_eq!(step_report(CliStep::Status, true), None);
    assert_eq!(step_report(CliStep::RegisterDirect, true), None);
}
