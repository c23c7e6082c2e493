//! The syscall dispatcher: one syscall is defined, `write`, which pushes
//! a caller-supplied buffer through the terminal's printable filter and
//! returns the number of bytes processed; every other syscall number is
//! accepted and does nothing. The trap entry itself (model-specific
//! registers, trampoline) lives outside the crate; by the time control
//! reaches this logic the caller's buffer has been resolved to a slice.

use vstd::prelude::*;

use crate::{BUFFER_HEIGHT, SUBSTITUTE_GLYPH};
use crate::screen::{TermModel, term_wf, new_line_spec, write_byte_spec, lemma_new_line_wf,
    lemma_write_byte_wf, glyph_of};
use crate::vga_buffer::Writer;

verus! {

/// The number of the write syscall.
pub const SYSCALL_WRITE: u64 = 1;

/// What one byte of a write does: a newline ends the row directly,
/// anything else goes through `write_byte` with its printable filter.
pub open spec fn sys_byte_spec(m: TermModel, b: u8) -> TermModel {
    if b == 0x0a {
        new_line_spec(m)
    } else {
        write_byte_spec(m, b)
    }
}

/// A whole write, left to right.
pub open spec fn sys_write_spec(m: TermModel, s: Seq<u8>) -> TermModel
    decreases s.len(),
{
    if s.len() == 0 {
        m
    } else {
        sys_byte_spec(sys_write_spec(m, s.drop_last()), s.last())
    }
}

/// One write step preserves well-formedness and leaves the write row
/// inside the visible range.
pub proof fn lemma_sys_byte_wf(m: TermModel, b: u8)
    requires
        term_wf(m),
    ensures
        term_wf(sys_byte_spec(m, b)),
        0 <= sys_byte_spec(m, b).write_row < BUFFER_HEIGHT as int,
{
    if b == 0x0a {
        lemma_new_line_wf(m);
    } else {
        lemma_write_byte_wf(m, b);
    }
}

/// The write syscall: processes every byte of the buffer and returns how
/// many it processed. The descriptor argument is part of the call
/// convention but plays no role yet: only one output channel exists.
pub fn sys_write(writer: &mut Writer, _fd: u64, buf: &[u8]) -> (r: u64)
    requires
        old(writer).wf(),
        old(writer)@.write_row < isize::MAX as int,
    ensures
        final(writer)@ == sys_write_spec(old(writer)@, buf@),
        final(writer).wf(),
        r == buf@.len(),
{
    let n = buf.len();
    let mut i: usize = 0;
    while i < n
        invariant
            i <= n,
            n == buf@.len(),
            writer.wf(),
            writer@ == sys_write_spec(old(writer)@, buf@.take(i as int)),
            writer@.write_row < isize::MAX as int,
        decreases n - i,
    {
        let ghost prev = writer@;
        let b = *vstd::slice::slice_index_get(buf, i);
        proof {
            lemma_sys_byte_wf(prev, b);
        }
        match b {
            0x20..=0x7e | 0x0a => {
                if b == 0x0a {
                    writer.new_line();
                } else {
                    writer.write_byte(b);
                }
            },
            _ => {
                writer.write_byte(SUBSTITUTE_GLYPH);
            },
        }
        proof {
            if !(0x20 <= b && b <= 0x7e) && b != 0x0a {
                assert(glyph_of(SUBSTITUTE_GLYPH) == glyph_of(b));
                assert(write_byte_spec(prev, SUBSTITUTE_GLYPH) =~~= write_byte_spec(prev, b));
            }
            assert(buf@.take(i + 1).drop_last() =~= buf@.take(i as int));
            assert(buf@.take(i + 1).last() == buf@[i as int]);
        }
        i = i + 1;
    }
    proof {
        assert(buf@.take(n as int) =~= buf@);
    }
    n as u64
}

/// Routes one trapped call: number `SYSCALL_WRITE` performs the write
/// and returns its length; every other number does nothing and returns
/// zero.
pub fn syscall_dispatcher(writer: &mut Writer, syscall_number: u64, arg1: u64, buf: &[u8]) -> (r:
    u64)
    requires
        old(writer).wf(),
        old(writer)@.write_row < isize::MAX as int,
    ensures
        syscall_number == SYSCALL_WRITE ==> final(writer)@ == sys_write_spec(old(writer)@, buf@)
            && r == buf@.len(),
        syscall_number != SYSCALL_WRITE ==> final(writer)@ == old(writer)@ && r == 0,
        final(writer).wf(),
{
    if syscall_number == SYSCALL_WRITE {
        sys_write(writer, arg1, buf)
    } else {
        0
    }
}

} // verus!
