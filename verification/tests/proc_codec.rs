use systrace::proc::{decode_proc_maps, parse_proc_maps_entry, pretty_show_maps, proc_get_task_state, LinuxTaskState};

#[test]
fn parse_line_basic() {
    let line = b"7f5c60000000-7f5c60021000 rw-p 00000000 00:00 0";
    let e = parse_proc_maps_entry(line).expect("line should parse");
    assert_eq!(e.base(), 0x7f5c60000000);
    assert_eq!(e.size(), 0x21000);
    assert_eq!(e.end(), 0x7f5c60021000);
    assert_eq!(e.prot(), 1 | 2);
    assert!(e.filename().is_none());
}

#[test]
fn parse_line_with_path() {
    let line = b"55e4f0000000-55e4f0001000 r-xp 00001000 08:01 131842   /usr/lib/libc.so.6";
    let e = parse_proc_maps_entry(line).expect("line should parse");
    assert_eq!(e.base(), 0x55e4f0000000);
    assert_eq!(e.prot(), 1 | 4);
    assert_eq!(e.filename().expect("path expected").as_slice(), b"/usr/lib/libc.so.6");
}

#[test]
fn parse_line_tolerates_trailing_blanks() {
    let line = b"1000-2000 ---s 00000000 08:01 7   ";
    let e = parse_proc_maps_entry(line).expect("line should parse");
    assert_eq!(e.base(), 0x1000);
    assert_eq!(e.prot(), 0);
    assert!(e.filename().is_none());
}

#[test]
fn parse_line_rejects_garbage() {
    assert!(parse_proc_maps_entry(b"").is_none());
    assert!(parse_proc_maps_entry(b"not a map line").is_none());
    assert!(parse_proc_maps_entry(b"1000 2000 rw-p 0 00:00 0").is_none());
    // an end address below the base is rejected
    assert!(parse_proc_maps_entry(b"2000-1000 rw-p 00000000 00:00 0").is_none());
}

#[test]
fn format_is_canonical() {
    let line = b"1000-2000 r-xp 00000010 08:01 42 /bin/x";
    let e = parse_proc_maps_entry(line).expect("line should parse");
    let shown = e.show();
    // head: 4+1+4+1+4+1+8+1+5+1+2 = 32 bytes, then blanks out to the
    // path column at 73, then the path
    let mut expected: Vec<u8> = Vec::new();
    expected.extend_from_slice(b"1000-2000 r-xp 00000010 08:01 42");
    for _ in 0..41 {
        expected.push(b' ');
    }
    expected.extend_from_slice(b"/bin/x");
    assert_eq!(shown, expected);
}

#[test]
fn format_then_parse_round_trips() {
    let lines: [&[u8]; 4] = [
        b"7f5c60000000-7f5c60021000 rw-p 00000000 00:00 0",
        b"55e4f0000000-55e4f0001000 r-xp 00001000 08:01 131842   /usr/lib/libc.so.6",
        b"0-1000 ---- 00000000 ff:ff 18446744073709551615",
        b"ffffffffff600000-ffffffffff601000 --xp 00000000 00:00 0   [vsyscall]",
    ];
    for line in lines {
        let e = parse_proc_maps_entry(line).expect("line should parse");
        let shown = e.show();
        let e2 = parse_proc_maps_entry(&shown).expect("formatted line should parse");
        assert_eq!(e.base(), e2.base());
        assert_eq!(e.size(), e2.size());
        assert_eq!(e.end(), e2.end());
        assert_eq!(e.prot(), e2.prot());
        assert_eq!(e.filename().map(|f| f.clone()), e2.filename().map(|f| f.clone()));
        // and formatting again is stable
        assert_eq!(shown, e2.show());
    }
}

#[test]
fn decode_drops_bad_lines() {
    let text = b"1000-2000 rw-p 00000000 00:00 0\nthis line is noise\n3000-4000 r--p 00000000 08:01 5 /lib/a\n";
    let entries = decode_proc_maps(text);
    assert_eq!(entries.len(), 2);
    assert_eq!(entries[0].base(), 0x1000);
    assert_eq!(entries[1].base(), 0x3000);
    assert_eq!(entries[1].filename().expect("path").as_slice(), b"/lib/a");
}

#[test]
fn decode_handles_crlf_and_empty() {
    assert_eq!(decode_proc_maps(b"").len(), 0);
    let entries = decode_proc_maps(b"1000-2000 rw-p 00000000 00:00 0\r\n");
    assert_eq!(entries.len(), 1);
    assert_eq!(entries[0].base(), 0x1000);
}

#[test]
fn pretty_show_maps_lists_lines() {
    let text = b"1000-2000 rw-p 00000000 00:00 0\n3000-4000 r--p 00000000 08:01 5\n";
    let entries = decode_proc_maps(text);
    let shown = pretty_show_maps(&entries);
    let first = entries[0].show();
    assert_eq!(&shown[..first.len()], first.as_slice());
    assert_eq!(shown[first.len()], b'\n');
    assert_eq!(shown.iter().filter(|&&b| b == b'\n').count(), 2);
}

#[test]
fn task_state_letters() {
    let status = b"Name:\tcat\nUmask:\t0022\nState:\tR (running)\nTgid:\t10\n";
    assert!(matches!(proc_get_task_state(status), Some(LinuxTaskState::Running)));
    let status_z = b"Name:\tx\nUmask:\t0022\nState:\tZ (zombie)\n";
    assert!(matches!(proc_get_task_state(status_z), Some(LinuxTaskState::Zombine)));
    let status_t = b"Name:\tx\nUmask:\t0022\nState:\tt (tracing stop)\n";
    assert!(matches!(proc_get_task_state(status_t), Some(LinuxTaskState::Ptraced)));
    // fewer than three lines, or an unknown letter, give nothing
    assert!(proc_get_task_state(b"Name:\tx\nState:\tR\n").is_none());
    assert!(proc_get_task_state(b"Name:\tx\nUmask:\t0022\nState:\tQ\n").is_none());
}
