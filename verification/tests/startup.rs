use stm32_kernel::interrupt::usart2_handler;
use stm32_kernel::startup::{init_data, zero_bss};

#[test]
fn copies_data_section() {
    let flash = [1u32, 2, 3, 4, 5];
    let mut ram = [0u32; 3];
    init_data(&flash, &mut ram);
    assert_eq!(ram, [1, 2, 3]);
}

#[test]
fn empty_data_section() {
    let flash = [7u32];
    let mut ram: [u32; 0] = [];
    init_data(&flash, &mut ram);
    assert_eq!(ram.len(), 0);
}

#[test]
fn zeroes_bss() {
    let mut bss = [9u32, 8, 7];
    zero_bss(&mut bss);
    assert_eq!(bss, [0, 0, 0]);
}

#[test]
fn usart2_detects_request() {
    let mut buf = vec![0u8; 1000];
    buf[..11].copy_from_slice(b"\r\n+IPD,2:OK");
    let a = usart2_handler(989, &buf);
    assert_eq!(a.msg_len, 11);
    assert!(a.is_request);
}

#[test]
fn usart2_leaves_other_replies() {
    let mut buf = vec![0u8; 1000];
    buf[..6].copy_from_slice(b"\r\nOK\r\n");
    let a = usart2_handler(994, &buf);
    assert_eq!(a.msg_len, 6);
    assert!(!a.is_request);
    let a = usart2_handler(1000, &buf);
    assert_eq!(a.msg_len, 0);
}
