use wind_portable::variant::{
    detect_dev_in, detect_dirs, detect_probes, has_portable_marker_in, portable_data_dir, Variant,
    CLSID_DEV, CLSID_RELEASE,
};

fn strings(list: &[&str]) -> Vec<String> {
    list.iter().map(|s| s.to_string()).collect()
}

#[test]
fn release_names() {
    let v = Variant::new(false);
    assert!(!v.is_dev);
    assert_eq!(v.pipe_suffix, "");
    assert_eq!(v.service_name, "wind_input.exe");
    assert_eq!(v.setting_name, "wind_setting.exe");
    assert_eq!(v.dll_name, "wind_tsf.dll");
    assert_eq!(v.dll_name_x86, "wind_tsf_x86.dll");
    assert_eq!(v.app_name, "WindInput");
    assert_eq!(v.mutex_name, r"Local\WindPortableLauncher");
    assert_eq!(v.clsid, CLSID_RELEASE);
}

#[test]
fn dev_names() {
    let v = Variant::new(true);
    assert!(v.is_dev);
    assert_eq!(v.pipe_suffix, "_dev");
    assert_eq!(v.service_name, "wind_input_dev.exe");
    assert_eq!(v.dll_name_x86, "wind_tsf_x86_dev.dll");
    assert_eq!(v.app_name, "WindInputDev");
    assert_eq!(v.mutex_name, r"Local\WindPortableLauncher_dev");
    assert_eq!(v.clsid, CLSID_DEV);
    assert_eq!(v.display_name, "清风输入法开发版");
}

#[test]
fn detect_dev_direct_and_build_subdir() {
    let tmp = r"D:\pkg";
    let dirs = strings(&[tmp]);
    assert!(!detect_dev_in(&dirs, &strings(&[])));
    assert!(detect_dev_in(&dirs, &strings(&[r"D:\pkg\wind_input_dev.exe"])));
    assert!(!detect_dev_in(&dirs, &strings(&[r"D:\pkg\wind_input.exe"])));
    assert!(detect_dev_in(
        &dirs,
        &strings(&[r"D:\pkg\build_dev\wind_input_dev.exe"])
    ));
}

#[test]
fn identifiers() {
    let release = Variant::new(false);
    assert_eq!(release.clsid, "{99C2EE30-5C57-45A2-9C63-FB54B34FD90A}");
    assert_eq!(
        release.profile_str,
        "0804:{99C2EE30-5C57-45A2-9C63-FB54B34FD90A}{99C2EE31-5C57-45A2-9C63-FB54B34FD90A}"
    );
    assert_eq!(release.display_name, "清风输入法");
    let dev = Variant::new(true);
    assert_eq!(dev.clsid, "{99C2DEB0-5C57-45A2-9C63-FB54B34FD90A}");
    assert_eq!(
        dev.profile_str,
        "0804:{99C2DEB0-5C57-45A2-9C63-FB54B34FD90A}{99C2DEB1-5C57-45A2-9C63-FB54B34FD90A}"
    );
    assert_ne!(dev.service_name, release.service_name);
    assert_ne!(dev.mutex_name, release.mutex_name);
}

#[test]
fn variant_of_a_launcher() {
    let exe = r"D:\pkg\tools\wind_portable.exe";
    assert_eq!(detect_dirs(Some(exe)), strings(&[r"D:\pkg\tools", r"D:\pkg"]));
    assert_eq!(detect_dirs(Some(r"D:\wind_portable.exe")), strings(&[r"D:\"]));
    assert_eq!(detect_dirs(None), strings(&[]));
    let files = strings(&[r"D:\pkg\wind_input_dev.exe"]);
    assert!(Variant::detect(Some(exe), &files).is_dev);
    assert!(!Variant::detect(Some(exe), &strings(&[])).is_dev);
    assert!(!Variant::detect(None, &files).is_dev);
}

#[test]
fn variant_probes() {
    assert_eq!(
        detect_probes(&strings(&[r"D:\a", r"D:\"])),
        strings(&[
            r"D:\a\wind_input_dev.exe",
            r"D:\a\build_dev\wind_input_dev.exe",
            r"D:\wind_input_dev.exe",
            r"D:\build_dev\wind_input_dev.exe",
        ])
    );
}

#[test]
fn either_marker_counts() {
    assert!(has_portable_marker_in(r"D:\p", &strings(&[r"D:\p\portable_mode"])));
    assert!(has_portable_marker_in(
        r"D:\p",
        &strings(&[r"D:\p\wind_portable_mode"])
    ));
    assert!(!has_portable_marker_in(r"D:\p", &strings(&[r"D:\q\portable_mode"])));
}

#[test]
fn data_directory() {
    assert_eq!(portable_data_dir(r"D:\p"), r"D:\p\userdata");
    assert_eq!(portable_data_dir(r"D:\"), r"D:\userdata");
}
