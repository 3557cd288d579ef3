use wind_portable::reg::{
    delete_value, from_wide, read_string, set_string, value_written, wide, Query, REG_EXPAND_SZ,
    REG_SZ,
};

fn query(kind: u32, data: Vec<u8>) -> Query {
    Query {
        opened: true,
        size: Some(data.len() as u32),
        filled: Some((kind, data)),
    }
}

#[test]
fn wide_text() {
    assert_eq!(wide(""), vec![0]);
    assert_eq!(wide("aé清😀"), vec![0x61, 0xe9, 0x6e05, 0xd83d, 0xde00, 0]);
    let s = "清风输入法 (Dev) 😀\u{ffff}\u{10000}\u{10ffff}";
    let mut expected: Vec<u16> = s.encode_utf16().collect();
    expected.push(0);
    assert_eq!(wide(s), expected);
}

#[test]
fn malformed_wide_text() {
    let cases: Vec<Vec<u16>> = vec![
        vec![0xd800],
        vec![0xdc00, 0x41],
        vec![0xd83d, 0x41],
        vec![0xd83d, 0xd83d, 0xde00],
        vec![0xde00, 0xd83d],
        vec![],
    ];
    for c in cases {
        assert_eq!(from_wide(&c), String::from_utf16_lossy(&c));
    }
}

#[test]
fn values_read_back() {
    for s in ["", "x", r"C:\清风\wind_tsf.dll", "😀"] {
        assert_eq!(read_string(&query(REG_SZ, set_string(s))), Some(s.to_string()));
        assert_eq!(
            read_string(&query(REG_EXPAND_SZ, set_string(s))),
            Some(s.to_string())
        );
    }
    assert_eq!(
        read_string(&query(REG_SZ, set_string("a\0b\0\0"))),
        Some("a\0b".to_string())
    );
}

#[test]
fn value_bytes() {
    assert_eq!(set_string("aé"), vec![0x61, 0, 0xe9, 0, 0, 0]);
    assert_eq!(set_string("清"), vec![0x05, 0x6e, 0, 0]);
}

#[test]
fn odd_byte_is_dropped() {
    assert_eq!(read_string(&query(REG_SZ, vec![0x61, 0, 0x62])), Some("a".to_string()));
    assert_eq!(read_string(&query(REG_SZ, vec![0x61])), Some(String::new()));
}

#[test]
fn queries_that_find_nothing() {
    assert_eq!(read_string(&query(4, vec![1, 0, 0, 0])), None);
    assert_eq!(read_string(&query(REG_SZ, vec![])), None);
    let mut q = query(REG_SZ, set_string("a"));
    q.opened = false;
    assert_eq!(read_string(&q), None);
    let mut q = query(REG_SZ, set_string("a"));
    q.size = None;
    assert_eq!(read_string(&q), None);
    let mut q = query(REG_SZ, set_string("a"));
    q.filled = None;
    assert_eq!(read_string(&q), None);
}

#[test]
fn writes_and_removals() {
    assert!(value_written(true, 0));
    assert!(!value_written(true, 5));
    assert!(!value_written(false, 0));
    assert!(delete_value(true, 0));
    assert!(delete_value(true, 2));
    assert!(!delete_value(true, 5));
    assert!(!delete_value(false, 0));
}
