//! The keyboard driver's decision logic. Scancode bytes are decoded by
//! pc_keyboard's stateful decoder (trusted, see the wrappers below) into
//! key presses; what each press does — line editing on the terminal,
//! edge-triggered flags for the shell — is decided and proved here. The
//! port read and the interrupt acknowledgment live outside the crate.

use vstd::prelude::*;

use pc_keyboard::{DecodedKey, HandleControl, KeyCode, Keyboard, ScancodeSet1, layouts::Us104Key};

use crate::screen::{TermModel, write_byte_spec, backspace_spec};
use crate::vga_buffer::Writer;

verus! {

/// A finished key transition, before layout translation; opaque.
#[verifier::external_type_specification]
#[verifier::external_body]
pub struct ExKeyEvent(pc_keyboard::KeyEvent);

/// Holds pc_keyboard's stateful scancode decoder, set up for scancode
/// set 1 and the US 104-key layout; opaque to the verifier.
#[verifier::external_body]
pub struct KeyDecoder {
    inner: Keyboard<Us104Key, ScancodeSet1>,
}

impl KeyDecoder {
    /// Relies on pc_keyboard's Keyboard::new: a fresh decoder with
    /// control-key mapping left alone.
    #[verifier::external_body]
    pub fn new() -> KeyDecoder {
        KeyDecoder { inner: Keyboard::new(ScancodeSet1::new(), Us104Key, HandleControl::Ignore) }
    }
}

/// What one decoded key press is to this driver: a character, one of the
/// raw keys it reacts to, or something it ignores.
#[derive(Clone, Copy, Debug, PartialEq, Eq, Structural)]
pub enum KeyPress {
    /// A printable or control character.
    Unicode(char),
    /// The up arrow, reported as a raw key.
    ArrowUp,
    /// The down arrow, reported as a raw key.
    ArrowDown,
    /// The left arrow; wired up but intentionally disabled.
    ArrowLeft,
    /// The right arrow; wired up but intentionally disabled.
    ArrowRight,
    /// Backspace reported as a raw key rather than as a character.
    RawBackspace,
    /// Any other raw key; ignored.
    Other,
}

/// The edge-triggered input flags: set by the keyboard driver, cleared
/// by the consumer once observed — a single-slot mailbox per signal,
/// last write wins. The left/right slots exist but nothing sets them.
#[derive(Clone, Copy, Debug, PartialEq, Eq, Structural)]
pub struct InputFlags {
    pub enter: bool,
    pub up: bool,
    pub down: bool,
    pub left: bool,
    pub right: bool,
}

impl InputFlags {
    /// All flags clear.
    pub fn new() -> (f: InputFlags)
        ensures
            f == (InputFlags { enter: false, up: false, down: false, left: false, right: false }),
    {
        InputFlags { enter: false, up: false, down: false, left: false, right: false }
    }
}

/// The low byte of a character, as the terminal stores it.
pub open spec fn char_low_byte(c: char) -> u8 {
    ((c as int) % 256) as u8
}

/// What one key press does to the terminal and the flags: backspace (in
/// either form) edits the line; carriage return or newline writes a
/// newline and raises the enter flag; any other character is written
/// as-is; the up and down arrows raise their flags; the left and right
/// arrows are wired up but disabled; anything else is ignored.
pub open spec fn handle_key_spec(t: TermModel, f: InputFlags, key: KeyPress) -> (TermModel,
    InputFlags) {
    match key {
        KeyPress::Unicode(c) => {
            if c == '\u{8}' {
                (backspace_spec(t), f)
            } else if c == '\n' || c == '\r' {
                (write_byte_spec(t, 0x0a), InputFlags { enter: true, ..f })
            } else {
                (write_byte_spec(t, char_low_byte(c)), f)
            }
        },
        KeyPress::ArrowUp => (t, InputFlags { up: true, ..f }),
        KeyPress::ArrowDown => (t, InputFlags { down: true, ..f }),
        KeyPress::ArrowLeft => (t, f),
        KeyPress::ArrowRight => (t, f),
        KeyPress::RawBackspace => (backspace_spec(t), f),
        KeyPress::Other => (t, f),
    }
}

/// Applies one decoded key press; see `handle_key_spec`.
pub fn handle_key(writer: &mut Writer, flags: &mut InputFlags, key: KeyPress)
    requires
        old(writer).wf(),
    ensures
        final(writer)@ == handle_key_spec(old(writer)@, *old(flags), key).0,
        *final(flags) == handle_key_spec(old(writer)@, *old(flags), key).1,
        final(writer).wf(),
{
    match key {
        KeyPress::Unicode(c) => {
            if c == '\u{8}' {
                writer.backspace();
            } else if c == '\n' || c == '\r' {
                writer.write_byte(0x0a);
                flags.enter = true;
            } else {
                let code = c as u32;
                let b = (code % 256) as u8;
                writer.write_byte(b);
            }
        },
        KeyPress::ArrowUp => {
            flags.up = true;
        },
        KeyPress::ArrowDown => {
            flags.down = true;
        },
        KeyPress::ArrowLeft => {},
        KeyPress::ArrowRight => {},
        KeyPress::RawBackspace => {
            writer.backspace();
        },
        KeyPress::Other => {},
    }
}

/// Relies on pc_keyboard's Keyboard::add_byte: it advances the scancode
/// state machine by one raw byte; a finished key transition comes back
/// as an event, an unfinished or malformed byte as nothing.
#[verifier::external_body]
fn add_scancode_byte(keyboard: &mut KeyDecoder, scancode: u8) -> Option<pc_keyboard::KeyEvent> {
    match keyboard.inner.add_byte(scancode) {
        Ok(Some(event)) => Some(event),
        _ => None,
    }
}

/// Relies on pc_keyboard's Keyboard::process_keyevent: it applies the
/// layout and the modifier state to one key event; the outcome is
/// carried over, variant for variant, onto this crate's `KeyPress`.
#[verifier::external_body]
fn process_key_event(keyboard: &mut KeyDecoder, event: pc_keyboard::KeyEvent) -> Option<
    KeyPress,
> {
    match keyboard.inner.process_keyevent(event) {
        Some(DecodedKey::Unicode(c)) => Some(KeyPress::Unicode(c)),
        Some(DecodedKey::RawKey(KeyCode::ArrowUp)) => Some(KeyPress::ArrowUp),
        Some(DecodedKey::RawKey(KeyCode::ArrowDown)) => Some(KeyPress::ArrowDown),
        Some(DecodedKey::RawKey(KeyCode::ArrowLeft)) => Some(KeyPress::ArrowLeft),
        Some(DecodedKey::RawKey(KeyCode::ArrowRight)) => Some(KeyPress::ArrowRight),
        Some(DecodedKey::RawKey(KeyCode::Backspace)) => Some(KeyPress::RawBackspace),
        Some(DecodedKey::RawKey(_)) => Some(KeyPress::Other),
        None => None,
    }
}

/// Feeds one scancode byte through the decoder and applies whatever key
/// press it yields; says which press, if any, was applied. The decoder's
/// outcome depends on its hidden state, so the contract speaks of every
/// outcome: whatever press came back was handled per `handle_key_spec`,
/// and a byte that decoded to nothing changed nothing.
pub fn handle_scancode(
    keyboard: &mut KeyDecoder,
    writer: &mut Writer,
    flags: &mut InputFlags,
    scancode: u8,
) -> (key: Option<KeyPress>)
    requires
        old(writer).wf(),
    ensures
        key matches Some(k) ==> final(writer)@ == handle_key_spec(old(writer)@, *old(flags), k).0
            && *final(flags) == handle_key_spec(old(writer)@, *old(flags), k).1,
        key is None ==> final(writer)@ == old(writer)@ && *final(flags) == *old(flags),
        final(writer).wf(),
{
    let mut result: Option<KeyPress> = None;
    if let Some(event) = add_scancode_byte(keyboard, scancode) {
        if let Some(key) = process_key_event(keyboard, event) {
            handle_key(writer, flags, key);
            result = Some(key);
        }
    }
    result
}

} // verus!
