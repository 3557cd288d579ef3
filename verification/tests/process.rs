use wind_portable::process::{
    any_terminated, exists_by_path, terminate_by_name, terminate_by_path, Process,
};

fn list() -> Vec<Process> {
    let p = |pid: u32, path: Option<&str>| Process {
        pid,
        path: path.map(|s| s.to_string()),
    };
    vec![
        p(0, Some(r"D:\pkg\wind_input.exe")),
        p(4, None),
        p(10, Some(r"D:\Pkg\WIND_INPUT.exe")),
        p(11, Some(r"E:\other\wind_input.exe")),
        p(12, Some(r"D:\pkg\wind_input_dev.exe")),
        p(13, Some(r"D:\pkg\wind_input.exe")),
        p(14, Some(r"D:\pkg\Ünicode.exe")),
    ]
}

#[test]
fn processes_by_path() {
    assert!(exists_by_path(&list(), r"d:\pkg\wind_input.exe"));
    assert!(!exists_by_path(&list(), r"D:\pkg\wind_setting.exe"));
    assert!(!exists_by_path(&[].into(), r"D:\pkg\wind_input.exe"));
    assert_eq!(terminate_by_path(&list(), r"D:\pkg\wind_input.exe"), vec![10, 13]);
    assert!(terminate_by_path(&list(), r"D:\x").is_empty());
    assert!(exists_by_path(&list(), r"D:\pkg\ÜNICODE.EXE"));
}

#[test]
fn processes_by_name() {
    assert_eq!(terminate_by_name(&list(), "Wind_Input"), vec![10, 11, 13]);
    assert_eq!(terminate_by_name(&list(), "wind_input_dev"), vec![12]);
    assert!(terminate_by_name(&list(), "wind_input.exe").is_empty());
}

#[test]
fn idle_process_is_never_touched() {
    let idle = vec![Process { pid: 0, path: Some("a".to_string()) }];
    assert!(!exists_by_path(&idle, "a"));
    assert!(terminate_by_path(&idle, "a").is_empty());
    assert!(terminate_by_name(&idle, "a").is_empty());
}

#[test]
fn outcome_of_terminating() {
    assert!(any_terminated(&vec![false, true]));
    assert!(!any_terminated(&vec![false, false]));
    assert!(!any_terminated(&vec![]));
}
