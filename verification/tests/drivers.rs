use test_os::interrupts::InterruptIndex;
use test_os::keyboard::{handle_scancode, InputFlags, KeyDecoder, KeyPress};
use test_os::mouse::MouseState;
use test_os::syscall::{sys_write, syscall_dispatcher, SYSCALL_WRITE};
use test_os::vga_buffer::Writer;

const FIRST_ROW: usize = 2;

#[test]
fn misaligned_first_mouse_byte_is_discarded() {
    let mut w = Writer::new();
    w.write_byte(b'A');
    let mut mouse = MouseState::new();
    // Bit 3 clear: a resync byte; nothing assembles, nothing scrolls.
    assert!(!mouse.handle_mouse_byte(&mut w, 0x00));
    assert!(!mouse.handle_mouse_byte(&mut w, 0x04));
    assert_eq!(w.char_at(FIRST_ROW, 0), b'A');
    // The index did not advance: a well-formed packet still needs four
    // bytes from here.
    assert!(!mouse.handle_mouse_byte(&mut w, 0x08));
    assert!(!mouse.handle_mouse_byte(&mut w, 0x00));
    assert!(!mouse.handle_mouse_byte(&mut w, 0x00));
    assert!(mouse.handle_mouse_byte(&mut w, 0x00));
}

#[test]
fn wheel_forward_packet_scrolls_up_once() {
    let mut w = Writer::new();
    w.write_byte(b'A');
    let mut mouse = MouseState::new();
    assert!(!mouse.handle_mouse_byte(&mut w, 0x08));
    assert!(!mouse.handle_mouse_byte(&mut w, 0x00));
    assert!(!mouse.handle_mouse_byte(&mut w, 0x00));
    // Wheel byte 0xff reads as -1: one scroll up, rows move down one.
    assert!(mouse.handle_mouse_byte(&mut w, 0xff));
    assert_eq!(w.char_at(FIRST_ROW + 1, 0), b'A');
    assert_eq!(w.char_at(FIRST_ROW, 0), b' ');
}

#[test]
fn wheel_back_packet_scrolls_down_once() {
    let mut w = Writer::new();
    w.write_byte(b'A');
    let mut mouse = MouseState::new();
    assert!(!mouse.handle_mouse_byte(&mut w, 0x08));
    assert!(!mouse.handle_mouse_byte(&mut w, 0x00));
    assert!(!mouse.handle_mouse_byte(&mut w, 0x00));
    // Wheel byte 0x01 reads as +1: one scroll down, rows move up one.
    assert!(mouse.handle_mouse_byte(&mut w, 0x01));
    assert_eq!(w.char_at(FIRST_ROW - 1, 0), b'A');
}

#[test]
fn other_wheel_values_are_ignored() {
    let mut w = Writer::new();
    w.write_byte(b'A');
    let mut mouse = MouseState::new();
    assert!(!mouse.handle_mouse_byte(&mut w, 0x08));
    assert!(!mouse.handle_mouse_byte(&mut w, 0x00));
    assert!(!mouse.handle_mouse_byte(&mut w, 0x00));
    assert!(mouse.handle_mouse_byte(&mut w, 0x02));
    assert_eq!(w.char_at(FIRST_ROW, 0), b'A');
}

#[test]
fn letter_scancode_echoes_on_terminal() {
    let mut keyboard = KeyDecoder::new();
    let mut w = Writer::new();
    let mut flags = InputFlags::new();
    // Scancode 0x1e is the press of the A key in scancode set 1.
    let key = handle_scancode(&mut keyboard, &mut w, &mut flags, 0x1e);
    assert_eq!(key, Some(KeyPress::Unicode('a')));
    assert_eq!(w.char_at(FIRST_ROW, 0), b'a');
    assert!(!flags.enter);
}

#[test]
fn enter_scancode_raises_enter_flag() {
    let mut keyboard = KeyDecoder::new();
    let mut w = Writer::new();
    let mut flags = InputFlags::new();
    // Scancode 0x1c is the press of the Enter key.
    let key = handle_scancode(&mut keyboard, &mut w, &mut flags, 0x1c);
    assert!(matches!(key, Some(KeyPress::Unicode(_))));
    assert!(flags.enter);
}

#[test]
fn arrow_scancodes_raise_their_flags() {
    let mut keyboard = KeyDecoder::new();
    let mut w = Writer::new();
    let mut flags = InputFlags::new();
    // Extended scancode: 0xe0 0x48 is arrow up, 0xe0 0x50 arrow down.
    assert_eq!(handle_scancode(&mut keyboard, &mut w, &mut flags, 0xe0), None);
    let up = handle_scancode(&mut keyboard, &mut w, &mut flags, 0x48);
    assert_eq!(up, Some(KeyPress::ArrowUp));
    assert!(flags.up);
    assert!(!flags.down);
    assert_eq!(handle_scancode(&mut keyboard, &mut w, &mut flags, 0xe0), None);
    let down = handle_scancode(&mut keyboard, &mut w, &mut flags, 0x50);
    assert_eq!(down, Some(KeyPress::ArrowDown));
    assert!(flags.down);
}

#[test]
fn backspace_scancode_erases() {
    let mut keyboard = KeyDecoder::new();
    let mut w = Writer::new();
    let mut flags = InputFlags::new();
    w.write_byte(b'a');
    w.write_byte(b'b');
    // Scancode 0x0e is the press of the Backspace key.
    let key = handle_scancode(&mut keyboard, &mut w, &mut flags, 0x0e);
    assert!(key.is_some());
    assert_eq!(w.char_at(FIRST_ROW, 1), b' ');
}

#[test]
fn key_release_does_nothing() {
    let mut keyboard = KeyDecoder::new();
    let mut w = Writer::new();
    let mut flags = InputFlags::new();
    // 0x9e is the release of the A key: no press, no output.
    let key = handle_scancode(&mut keyboard, &mut w, &mut flags, 0x9e);
    assert!(key.is_none());
    assert_eq!(w.char_at(FIRST_ROW, 0), b' ');
}

#[test]
fn write_syscall_returns_length_and_prints() {
    let mut w = Writer::new();
    let r = syscall_dispatcher(&mut w, SYSCALL_WRITE, 1, b"hi");
    assert_eq!(r, 2);
    assert_eq!(w.char_at(FIRST_ROW, 0), b'h');
    assert_eq!(w.char_at(FIRST_ROW, 1), b'i');
}

#[test]
fn write_syscall_handles_newline_and_filter() {
    let mut w = Writer::new();
    let r = sys_write(&mut w, 1, b"a\n\x01");
    assert_eq!(r, 3);
    assert_eq!(w.char_at(FIRST_ROW, 0), b'a');
    assert_eq!(w.char_at(FIRST_ROW + 1, 0), 0xfe);
}

#[test]
fn unknown_syscall_returns_zero_without_side_effect() {
    let mut w = Writer::new();
    let r = syscall_dispatcher(&mut w, 7, 1, b"zz");
    assert_eq!(r, 0);
    assert_eq!(w.char_at(FIRST_ROW, 0), b' ');
}

#[test]
fn interrupt_vectors_sit_above_reserved_range() {
    assert_eq!(InterruptIndex::Timer.as_u8(), 32);
    assert_eq!(InterruptIndex::Keyboard.as_u8(), 33);
    // Mouse: secondary controller base (40) plus line 4.
    assert_eq!(InterruptIndex::Mouse.as_u8(), 44);
    assert_eq!(InterruptIndex::Mouse.as_usize(), 44);
}

#[test]
fn wheel_scroll_moves_the_write_row_with_the_text() {
    let mut w = Writer::new();
    w.write_byte(b'A');
    let mut mouse = MouseState::new();
    assert!(!mouse.handle_mouse_byte(&mut w, 0x08));
    assert!(!mouse.handle_mouse_byte(&mut w, 0x00));
    assert!(!mouse.handle_mouse_byte(&mut w, 0x00));
    assert!(mouse.handle_mouse_byte(&mut w, 0xff));
    // The scroll moved the text down one row and the write row with it,
    // so output continues on the same line of text.
    w.write_byte(b'B');
    assert_eq!(w.char_at(FIRST_ROW + 1, 0), b'A');
    assert_eq!(w.char_at(FIRST_ROW + 1, 1), b'B');
}
