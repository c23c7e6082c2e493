//! The mouse driver's packet-assembly state machine: one status/data byte
//! arrives per interrupt; a misaligned first byte resyncs, a complete
//! four-byte packet is interpreted as a wheel motion that scrolls the
//! terminal. The port reads and the bring-up handshake live outside the
//! crate; this is the decision logic, fed one byte at a time.

use vstd::prelude::*;

use crate::screen::{TermModel, scroll_up_spec, scroll_down_spec};
use crate::vga_buffer::Writer;

verus! {

/// Number of bytes in one complete packet.
pub const MOUSE_PACKET_BYTES: usize = 4;

/// The bit that must be set in the first byte of a well-formed packet.
pub const MOUSE_ALIGN_BIT: u8 = 0x08;

/// The assembly state as the specification sees it.
#[verifier::ext_equal]
pub ghost struct MouseModel {
    /// The four packet slots, partially filled.
    pub packet: Seq<u8>,
    /// How many slots are filled.
    pub index: int,
}

/// A byte is accepted unless it arrives first and lacks the alignment
/// bit; such a byte is treated as garbage and dropped without advancing.
pub open spec fn mouse_accepts(m: MouseModel, data: u8) -> bool {
    !(m.index == 0 && data & MOUSE_ALIGN_BIT == 0)
}

/// An accepted byte landing in the last slot completes a packet.
pub open spec fn mouse_completes(m: MouseModel, data: u8) -> bool {
    mouse_accepts(m, data) && m.index == MOUSE_PACKET_BYTES as int - 1
}

/// How one byte advances the assembly state.
pub open spec fn mouse_step(m: MouseModel, data: u8) -> MouseModel {
    if !mouse_accepts(m, data) {
        m
    } else if m.index < MOUSE_PACKET_BYTES as int - 1 {
        MouseModel { packet: m.packet.update(m.index, data), index: m.index + 1 }
    } else {
        MouseModel { packet: m.packet.update(m.index, data), index: 0 }
    }
}

/// The terminal with its logical write row advanced by one.
pub open spec fn row_advanced(t: TermModel) -> TermModel {
    TermModel { write_row: t.write_row + 1, ..t }
}

/// The terminal with its logical write row retracted by one.
pub open spec fn row_retracted(t: TermModel) -> TermModel {
    TermModel { write_row: t.write_row - 1, ..t }
}

/// What one byte does to the terminal: nothing until a packet completes;
/// a completed packet whose wheel byte reads −1 scrolls up and advances
/// the write row, one reading +1 scrolls down and retracts it, and any
/// other wheel value is ignored.
pub open spec fn mouse_term_effect(t: TermModel, m: MouseModel, data: u8) -> TermModel {
    if mouse_completes(m, data) {
        if data == 0xff {
            row_advanced(scroll_up_spec(t))
        } else if data == 0x01 {
            row_retracted(scroll_down_spec(t))
        } else {
            t
        }
    } else {
        t
    }
}

/// The packet-assembly state: a four-byte buffer plus a fill index.
pub struct MouseState {
    packet: [u8; 4],
    index: usize,
}

impl View for MouseState {
    type V = MouseModel;

    closed spec fn view(&self) -> MouseModel {
        MouseModel { packet: self.packet@, index: self.index as int }
    }
}

impl MouseState {
    /// The fill index never reaches past the last slot between calls.
    pub open spec fn wf(&self) -> bool {
        0 <= self@.index < MOUSE_PACKET_BYTES as int
    }

    /// An empty assembly state.
    pub fn new() -> (r: MouseState)
        ensures
            r@ == (MouseModel { packet: seq![0u8, 0u8, 0u8, 0u8], index: 0 }),
            r.wf(),
    {
        let r = MouseState { packet: [0u8, 0u8, 0u8, 0u8], index: 0 };
        proof {
            assert(r@.packet =~= seq![0u8, 0u8, 0u8, 0u8]);
            assert(r@ =~= (MouseModel { packet: seq![0u8, 0u8, 0u8, 0u8], index: 0 }));
        }
        r
    }

    /// Feeds one byte read from the data port; says whether it completed
    /// a packet. See `mouse_step` and `mouse_term_effect`.
    pub fn handle_mouse_byte(&mut self, writer: &mut Writer, data: u8) -> (completed: bool)
        requires
            old(self).wf(),
            old(writer).wf(),
            (isize::MIN as int) < old(writer)@.write_row,
            old(writer)@.write_row < isize::MAX as int,
        ensures
            final(self)@ == mouse_step(old(self)@, data),
            final(self).wf(),
            final(writer)@ == mouse_term_effect(old(writer)@, old(self)@, data),
            final(writer).wf(),
            completed == mouse_completes(old(self)@, data),
    {
        if self.index == 0 && data & MOUSE_ALIGN_BIT == 0 {
            return false;
        }
        self.packet.set(self.index, data);
        self.index = self.index + 1;
        if self.index == MOUSE_PACKET_BYTES {
            let wheel = self.packet[3];
            if wheel == 0xff {
                writer.scroll_up();
                writer.plus_write_row();
            } else if wheel == 0x01 {
                writer.scroll_down();
                writer.minus_write_row();
            }
            self.index = 0;
            proof {
                assert(self@ =~= mouse_step(old(self)@, data));
            }
            return true;
        }
        proof {
            assert(self@ =~= mouse_step(old(self)@, data));
        }
        false
    }
}

/// A byte that arrives first and lacks the alignment bit is discarded:
/// the assembly state does not advance and the terminal is untouched.
pub proof fn lemma_mouse_resync(m: MouseModel, t: TermModel, data: u8)
    requires
        m.index == 0,
        data & MOUSE_ALIGN_BIT == 0,
    ensures
        mouse_step(m, data) == m,
        mouse_term_effect(t, m, data) == t,
{
}

/// A well-formed four-byte packet whose last byte reads −1 triggers
/// exactly one scroll-up together with one write-row increment, and
/// nothing before its last byte; afterwards the assembly index is back
/// at zero.
pub proof fn lemma_mouse_packet_wheel_up(m: MouseModel, t: TermModel, b0: u8, b1: u8, b2: u8)
    requires
        m.index == 0,
        b0 & MOUSE_ALIGN_BIT != 0,
    ensures
        ({
            let m1 = mouse_step(m, b0);
            let m2 = mouse_step(m1, b1);
            let m3 = mouse_step(m2, b2);
            &&& mouse_term_effect(t, m, b0) == t
            &&& mouse_term_effect(t, m1, b1) == t
            &&& mouse_term_effect(t, m2, b2) == t
            &&& mouse_completes(m3, 0xff)
            &&& mouse_term_effect(t, m3, 0xff) == row_advanced(scroll_up_spec(t))
            &&& mouse_step(m3, 0xff).index == 0
        }),
{
}

} // verus!
