use std::collections::BTreeMap;

use wind_portable::replace::{FileAction, Replace};

/// Carries out a replacement on files that are kept in a map; the actions with the given numbers
/// fail.
fn run(failing: &[usize], files: &mut BTreeMap<String, Vec<u8>>) -> (Vec<String>, Result<(), String>) {
    let mut log = Vec::new();
    let mut r = Replace::new(r"D:\p\a.exe", Some(r"D:\p"), 5);
    let mut n = 0;
    loop {
        let fails = failing.contains(&n);
        let action = r.action();
        log.push(format!("{action:?}"));
        match action {
            FileAction::MakeDir(_) => {}
            FileAction::Write(p) => {
                let content: &[u8] = if fails { b"ne" } else { b"new" };
                files.insert(p, content.to_vec());
            }
            FileAction::Rename(a, b) => {
                if !fails {
                    let content = files.remove(&a).unwrap();
                    files.insert(b, content);
                }
            }
            FileAction::Remove(p) => {
                if !fails {
                    files.remove(&p);
                }
            }
            FileAction::Finish(result) => return (log, result),
        }
        let error = if fails { Some(format!("e{n}")) } else { None };
        r = r.step(error, 40 + n as u128);
        n += 1;
    }
}

fn before() -> BTreeMap<String, Vec<u8>> {
    let mut m = BTreeMap::new();
    m.insert(r"D:\p\a.exe".to_string(), b"old".to_vec());
    m
}

#[test]
fn plain_replacement() {
    let mut files = before();
    let (log, result) = run(&[], &mut files);
    assert_eq!(result, Ok(()));
    assert_eq!(log.len(), 4);
    assert_eq!(files.len(), 1);
    assert_eq!(files[r"D:\p\a.exe"], b"new");
}

#[test]
fn directory_cannot_be_made() {
    let mut files = before();
    let (_, result) = run(&[0], &mut files);
    assert_eq!(result, Err("创建目录失败: e0".to_string()));
    assert_eq!(files, before());
}

#[test]
fn failed_write_keeps_the_old_file() {
    let mut files = before();
    let (_, result) = run(&[1], &mut files);
    assert_eq!(result, Err("解压失败: e1".to_string()));
    assert_eq!(files[r"D:\p\a.exe"], b"old");
}

#[test]
fn file_in_use_is_moved_aside() {
    let mut files = before();
    let (_, result) = run(&[2], &mut files);
    assert_eq!(result, Ok(()));
    assert_eq!(files[r"D:\p\a.exe"], b"new");
    assert_eq!(files[r"D:\p\a.exe.old_42"], b"old");
    assert_eq!(files.len(), 2);
}

#[test]
fn failure_after_moving_aside_keeps_the_old_content() {
    let mut files = before();
    let (_, result) = run(&[2, 4], &mut files);
    assert_eq!(result, Err(r"替换文件失败 D:\p\a.exe: e4".to_string()));
    assert!(!files.contains_key(r"D:\p\a.exe"));
    assert_eq!(files[r"D:\p\a.exe.old_42"], b"old");
    assert_eq!(files.len(), 1);
}

#[test]
fn failure_without_moving_aside_keeps_the_old_file() {
    let mut files = before();
    let (log, result) = run(&[2, 3, 4], &mut files);
    assert_eq!(result, Err(r"替换文件失败 D:\p\a.exe: e4".to_string()));
    assert_eq!(files, before());
    assert_eq!(log.len(), 7);
}

#[test]
fn without_a_directory_the_write_comes_first() {
    let r = Replace::new("a.exe", None, 9);
    match r.action() {
        FileAction::Write(p) => assert_eq!(p, "a.exe.new_9"),
        other => panic!("{other:?}"),
    }
}
