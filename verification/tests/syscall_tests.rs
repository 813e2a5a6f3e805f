use user_lib::syscall::Syscall;
use user_lib::{exit, read};

#[test]
fn read_asks_for_buffer_length() {
    let mut buf = [7u8; 16];
    assert_eq!(read(0, &mut buf), Syscall::Read { fd: 0, len: 16 });
    assert_eq!(buf, [7u8; 16]);
    let mut empty: [u8; 0] = [];
    assert_eq!(read(3, &mut empty), Syscall::Read { fd: 3, len: 0 });
}

#[test]
fn write_carries_the_bytes() {
    assert_eq!(user_lib::write(1, b"hello"), Syscall::Write { fd: 1, data: b"hello".to_vec() });
    assert_eq!(user_lib::write(2, &[]), Syscall::Write { fd: 2, data: Vec::new() });
}

#[test]
fn exit_carries_the_code() {
    assert_eq!(exit(0), Syscall::Exit { exit_code: 0 });
    assert_eq!(exit(-1), Syscall::Exit { exit_code: -1 });
}
