//! Timer, UART, GPIO, and numbers in messages.

use tallow::gpio::{
    clear, configure, gpio_handle, read_input, Gpio, Handled, GPIO_BAD_PIN, GPIO_BAD_REQ,
    GPIO_OK,
};
use tallow::mmio::{RegWrite, WriteList};
use tallow::text::{bytes, same, tag, tag4};
use tallow::timer;
use tallow::uart::{Cursor, Writer};

fn w(addr: u32, value: u32) -> RegWrite {
    RegWrite { addr, value }
}

fn listed(writes: &WriteList) -> Vec<RegWrite> {
    writes.items[..writes.len].to_vec()
}

// Timer

#[test]
fn timer_bring_up_writes() {
    assert_eq!(
        timer::init(),
        [
            w(0x6001_F000, 0x600A_0000),
            w(0x6001_F018, 0),
            w(0x6001_F01C, 0),
            w(0x6001_F020, 1),
            w(0x6001_F010, 1000),
            w(0x6001_F014, 0),
            w(0x6001_F07C, 1),
            w(0x6001_F000, 0xE00A_0400),
        ]
    );
    assert_eq!(timer::INT_RAW_TIMERS, 0x6001_F074);
}

#[test]
fn timer_ticks_on_bit_zero_and_rearms() {
    assert_eq!(timer::poll_tick(0), None);
    assert_eq!(timer::poll_tick(0xFFFF_FFFE), None);
    let rearm = [w(0x6001_F07C, 1), w(0x6001_F000, 0xE00A_0400)];
    assert_eq!(timer::poll_tick(1), Some(rearm));
    assert_eq!(timer::poll_tick(0x8000_0003), Some(rearm));
}

#[test]
fn timer_runs_at_one_kilohertz() {
    let divider = (timer::CFG_RUNNING >> 13) & 0xFFFF;
    assert_eq!(divider, 80);
    assert_eq!(timer::APB_HZ / divider / timer::ALARM_USEC, 1000);
}

// UART

#[test]
fn uart_fifo_count_is_a_field_of_status() {
    assert_eq!(Writer::txfifo_count(0), 0);
    assert_eq!(Writer::txfifo_count(0x0000_FFFF), 0);
    assert_eq!(Writer::txfifo_count(0x0001_0000), 1);
    assert_eq!(Writer::txfifo_count(0x0080_1234), 128);
    assert_eq!(Writer::txfifo_count(0x03FF_0000), 0x3FF);
    assert_eq!(Writer::txfifo_count(0xFC00_0000), 0);
}

#[test]
fn uart_puts_a_byte_only_if_there_is_room() {
    assert_eq!(Writer::putc(0, 0x41), Some(w(0x6000_0000, 0x41)));
    assert_eq!(Writer::putc(127 << 16, 0xFF), Some(w(0x6000_0000, 0xFF)));
    assert_eq!(Writer::putc(128 << 16, 0x41), None);
    assert_eq!(Writer::putc(200 << 16, 0x41), None);
}

#[test]
fn uart_is_drained_when_the_fifo_is_empty() {
    assert!(Writer::drain(0));
    assert!(Writer::drain(0xFFFF));
    assert!(!Writer::drain(1 << 16));
}

fn written(text: &[u8]) -> Vec<u8> {
    let mut c = Cursor::start();
    let mut out = Vec::new();
    while let Some(b) = Writer::write_str(text, &mut c) {
        out.push(b);
    }
    assert_eq!(Writer::write_str(text, &mut c), None);
    out
}

#[test]
fn uart_translates_newlines() {
    assert_eq!(written(b""), b"".to_vec());
    assert_eq!(written(b"abc"), b"abc".to_vec());
    assert_eq!(written(b"\n"), b"\r\n".to_vec());
    assert_eq!(written(b"a\n\nb\r"), b"a\r\n\r\nb\r".to_vec());
}

#[test]
fn uart_translation_is_bytewise() {
    let mut parts = written(b"one\ntw");
    parts.extend(written(b"o\n"));
    assert_eq!(written(b"one\ntwo\n"), parts);
}

// GPIO

#[test]
fn gpio_register_writes() {
    assert_eq!(
        listed(&configure(8, true)),
        vec![w(0x6000_8020, 0x1000), w(0x6000_4024, 0x100), w(0x6000_4008, 0x100)]
    );
    assert_eq!(
        listed(&configure(31, false)),
        vec![w(0x6000_807C, 0x1200), w(0x6000_4028, 0x8000_0000)]
    );
    assert_eq!(tallow::gpio::set(0), w(0x6000_4004, 1));
    assert_eq!(clear(5), w(0x6000_4008, 32));
    assert_eq!(read_input(0x100, 8), 1);
    assert_eq!(read_input(0xFFFF_FEFF, 8), 0);
    assert_eq!(read_input(0x8000_0000, 31), 1);
}

fn ask(g: &mut Gpio, req: &[u8], gpio_in: u32) -> (Vec<u8>, Vec<RegWrite>) {
    let h: Handled = gpio_handle(g, req, gpio_in);
    (h.reply[..h.len].to_vec(), listed(&h.writes))
}

#[test]
fn gpio_refuses_bad_requests() {
    let mut g = Gpio { dirs: 5, levels: 4 };
    let bad: Vec<&[u8]> =
        vec![b"", b"C", b"C\x08", b"C\x08\x01\x00", b"S", b"S\x08\x01", b"c", b"T\x01\x01", b"R", b"x\x08", b"C\x08\x02"];
    for req in bad {
        assert_eq!(ask(&mut g, req, 0), (vec![GPIO_BAD_REQ], vec![]), "{:?}", req);
    }
    let off: Vec<&[u8]> = vec![b"C\x20\x01", b"C\xFF\x07", b"S\x20", b"c\x40", b"T\xFF", b"R\x20"];
    for req in off {
        assert_eq!(ask(&mut g, req, 0), (vec![GPIO_BAD_PIN], vec![]), "{:?}", req);
    }
    assert_eq!(g, Gpio { dirs: 5, levels: 4 });
    assert_eq!(gpio_handle(&mut g, b"", 0).reply, [GPIO_BAD_REQ, 0]);
}

#[test]
fn gpio_configures_pins() {
    let mut g = Gpio::new();
    assert_eq!(g, Gpio { dirs: 0, levels: 0 });
    g.levels = 0xFFFF_FFFF;
    let (reply, writes) = ask(&mut g, b"C\x08\x01", 0);
    assert_eq!(reply, vec![GPIO_OK]);
    assert_eq!(writes.len(), 3);
    // Outputs drive low.
    assert_eq!(g, Gpio { dirs: 0x100, levels: 0xFFFF_FEFF });
    let (reply, writes) = ask(&mut g, b"C\x08\x00", 0);
    assert_eq!(reply, vec![GPIO_OK]);
    assert_eq!(writes, vec![w(0x6000_8020, 0x1200), w(0x6000_4028, 0x100)]);
    assert_eq!(g, Gpio { dirs: 0, levels: 0xFFFF_FEFF });
}

#[test]
fn gpio_sets_and_clears() {
    let mut g = Gpio::new();
    assert_eq!(ask(&mut g, b"S\x1F", 0), (vec![GPIO_OK], vec![w(0x6000_4004, 0x8000_0000)]));
    assert_eq!(g.levels, 0x8000_0000);
    assert_eq!(ask(&mut g, b"c\x1F", 0), (vec![GPIO_OK], vec![w(0x6000_4008, 0x8000_0000)]));
    assert_eq!(g.levels, 0);
}

#[test]
fn gpio_toggles_twice_to_where_it_was() {
    let mut g = Gpio { dirs: 8, levels: 0x81 };
    assert_eq!(ask(&mut g, b"T\x03", 0), (vec![GPIO_OK, 1], vec![w(0x6000_4004, 8)]));
    assert_eq!(g, Gpio { dirs: 8, levels: 0x89 });
    assert_eq!(ask(&mut g, b"T\x03", 0), (vec![GPIO_OK, 0], vec![w(0x6000_4008, 8)]));
    assert_eq!(g, Gpio { dirs: 8, levels: 0x81 });
}

#[test]
fn gpio_outputs_read_the_shadow_and_inputs_the_hardware() {
    let mut g = Gpio { dirs: 0b01, levels: 0b01 };
    assert_eq!(ask(&mut g, b"R\x00", 0), (vec![GPIO_OK, 1], vec![]));
    assert_eq!(ask(&mut g, b"R\x01", 0b10), (vec![GPIO_OK, 1], vec![]));
    assert_eq!(ask(&mut g, b"R\x01", 0b01), (vec![GPIO_OK, 0], vec![]));
    g.levels = 0;
    assert_eq!(ask(&mut g, b"R\x00", 0xFFFF_FFFF), (vec![GPIO_OK, 0], vec![]));
}

#[test]
fn gpio_inputs_matter_to_input_reads_only() {
    let requests: Vec<&[u8]> =
        vec![b"", b"R\x20", b"C\x01\x01", b"C\x00\x00", b"S\x01", b"c\x00", b"T\x01", b"R\x00"];
    for req in requests {
        let (mut g, mut h) = (Gpio { dirs: 1, levels: 1 }, Gpio { dirs: 1, levels: 1 });
        assert_eq!(ask(&mut g, req, 0), ask(&mut h, req, 0xFFFF_FFFF), "{:?}", req);
        assert_eq!(g, h);
    }
}

#[test]
fn gpio_shadow_follows_the_output_registers() {
    let mut g = Gpio::new();
    let (mut out, mut enable) = (0u32, 0u32);
    let requests: Vec<&[u8]> =
        vec![b"C\x02\x01", b"S\x02", b"T\x05", b"C\x05\x01", b"T\x05", b"C\x02\x00", b"c\x02", b"R\x05"];
    for req in requests {
        for write in ask(&mut g, req, 0).1 {
            match write.addr {
                0x6000_4004 => out |= write.value,
                0x6000_4008 => out &= !write.value,
                0x6000_4024 => enable |= write.value,
                0x6000_4028 => enable &= !write.value,
                _ => {}
            }
        }
        assert_eq!(g, Gpio { dirs: enable, levels: out });
    }
}

#[test]
fn gpio_enter_forgets_the_shadow() {
    let mut g = Gpio { dirs: 3, levels: 3 };
    g.enter();
    assert_eq!(g, Gpio { dirs: 0, levels: 0 });
}

// Write lists

#[test]
fn writes_are_listed_in_order() {
    let mut list = WriteList::none();
    assert_eq!(listed(&list), vec![]);
    list.push(1, 2);
    list.push(3, 4);
    assert_eq!(listed(&list), vec![w(1, 2), w(3, 4)]);
}

// Text

fn tagged(prefix: &[u8], n: u32) -> Vec<u8> {
    let mut buf = [0xEEu8; 32];
    let len = tag(&mut buf, prefix, n);
    assert!(buf[len..].iter().all(|&b| b == 0xEE));
    buf[..len].to_vec()
}

fn tagged4(prefix: &[u8], n: u32) -> Vec<u8> {
    let mut buf = [0xEEu8; 32];
    let len = tag4(&mut buf, prefix, n);
    assert!(buf[len..].iter().all(|&b| b == 0xEE));
    buf[..len].to_vec()
}

#[test]
fn tag_has_no_leading_zeros() {
    assert_eq!(tagged(b"ping ", 0), b"ping 0".to_vec());
    assert_eq!(tagged(b"ping ", 7), b"ping 7".to_vec());
    assert_eq!(tagged(b"", 10), b"10".to_vec());
    assert_eq!(tagged(b"", 1_000_000_000), b"1000000000".to_vec());
    assert_eq!(tagged(b"n=", 305_040), b"n=305040".to_vec());
    assert_eq!(tagged(b"", u32::MAX), b"4294967295".to_vec());
}

#[test]
fn tag4_has_at_least_four_digits() {
    assert_eq!(tagged4(b"[ipc ", 0), b"[ipc 0000".to_vec());
    assert_eq!(tagged4(b"", 42), b"0042".to_vec());
    assert_eq!(tagged4(b"", 999), b"0999".to_vec());
    assert_eq!(tagged4(b"", 9999), b"9999".to_vec());
    assert_eq!(tagged4(b"", 10_000), b"10000".to_vec());
    assert_eq!(tagged4(b"", 1_000_000_000), b"1000000000".to_vec());
    assert_eq!(tagged4(b"", u32::MAX), b"4294967295".to_vec());
}

#[test]
fn numbers_read_back() {
    for n in [0u32, 9, 10, 99, 100, 4095, 65_536, 999_999_999, u32::MAX] {
        let plain = String::from_utf8(tagged(b"", n)).unwrap();
        let padded = String::from_utf8(tagged4(b"", n)).unwrap();
        assert_eq!(plain.parse::<u32>().unwrap(), n);
        assert_eq!(padded.parse::<u32>().unwrap(), n);
        assert_eq!(plain, format!("{}", n));
        assert_eq!(padded, format!("{:04}", n));
    }
}

#[test]
fn tag_fills_an_exact_fit() {
    let mut buf = [0u8; 7];
    assert_eq!(tag(&mut buf, b"ping ", 42), 7);
    assert_eq!(&buf, b"ping 42");
    let mut buf4 = [0u8; 4];
    assert_eq!(tag4(&mut buf4, b"", 1), 4);
    assert_eq!(&buf4, b"0001");
}

#[test]
fn byte_strings_compare() {
    assert!(same(b"ping", bytes("ping")));
    assert!(same(b"", b""));
    assert!(!same(b"ping", b"pong"));
    assert!(!same(b"ping", b"ping "));
}
