use nix::fcntl::{open, OFlag};
use nix::sys::stat::Mode;
use nix::unistd::read;
use systrace::proc::{decode_proc_maps, proc_get_task_state};

fn read_proc_file(path: &str) -> Vec<u8> {
    let fd = open(path, OFlag::O_RDONLY, Mode::empty()).expect("open proc file");
    let mut buf = Vec::new();
    let mut chunk = [0u8; 4096];
    loop {
        let n = read(&fd, &mut chunk).expect("read proc file");
        if n == 0 {
            break;
        }
        buf.extend_from_slice(&chunk[..n]);
    }
    buf
}

#[test]
fn can_decode_proc_self_maps() {
    let text = read_proc_file("/proc/self/maps");
    let decoded = decode_proc_maps(&text);
    assert!(decoded.len() > 0);
}

#[test]
fn can_decode_proc_self_state() {
    let text = read_proc_file("/proc/self/status");
    let decoded = proc_get_task_state(&text);
    assert!(decoded.is_some());
}
