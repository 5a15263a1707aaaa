//! A verified CHIP-8 virtual machine core.
//!
//! The crate provides the fetch-decode-execute engine of a CHIP-8
//! interpreter: a total decoder from raw 16-bit instruction words to a
//! closed instruction set, an executor that applies each instruction's
//! state transition to a machine-state record, and a 64x32 monochrome
//! framebuffer with wrapping coordinates. The executor's contract states
//! the exact transition for every instruction against a mathematical
//! small-step semantics (`spec_step`), so hosts can rely on reference
//! CHIP-8 behaviour: carry/borrow flag conventions, XOR sprite drawing
//! with collision detection, bounded call stack with explicit
//! overflow/underflow errors, and 12-bit wrap-around addressing.
//!
//! Presentation, input, timing and program loading are external
//! collaborators: the host passes keypad state and a random byte into
//! each step, drives the timers through `tick`, and reads the
//! framebuffer back out.
use vstd::prelude::*;

mod cpu;
mod decode;
mod framebuffer;
mod semantics;

pub use cpu::Cpu;
pub use decode::decode_opcode;
pub use decode::op_addr;
pub use decode::op_kk;
pub use decode::op_n;
pub use decode::op_x;
pub use decode::op_y;
pub use decode::spec_decode;
pub use decode::wf_op;
pub use decode::ArithKind;
pub use decode::DecodedOp;
pub use framebuffer::fb_blank;
pub use framebuffer::fb_wf;
pub use framebuffer::spec_pixel;
pub use framebuffer::spec_row_set;
pub use framebuffer::FrameBuffer;
pub use semantics::init_state;
pub use semantics::lemma_call_return_round_trip;
pub use semantics::lemma_call_stack_capacity;
pub use semantics::lemma_draw_row_collision_when_lit;
pub use semantics::lemma_draw_row_no_collision_when_clear;
pub use semantics::lemma_jump_sets_pc;
pub use semantics::lemma_step_preserves_wf;
pub use semantics::spec_advance;
pub use semantics::spec_arith;
pub use semantics::spec_draw;
pub use semantics::spec_draw_row;
pub use semantics::spec_fetch;
pub use semantics::spec_step;
pub use semantics::sprite_bit;
pub use semantics::stack_capacity;
pub use semantics::wf_state;
pub use semantics::InvalidPolicy;
pub use semantics::State;
pub use semantics::StepError;

verus! {

/// A raw 16-bit CHIP-8 instruction word, as fetched from memory.
#[derive(Copy, Clone, PartialEq, Eq, Structural, Debug)]
pub struct Opcode(pub u16);

impl View for Opcode {
    type V = u16;

    open spec fn view(&self) -> u16 {
        self.0
    }
}

impl Opcode {
    /// The 4-bit field `idx` nibbles up from the low end of the word
    /// (nibble 0 is bits 0..4, nibble 3 is bits 12..16).
    pub fn get_nibble(&self, idx: u32) -> (r: u16)
        requires
            idx <= 3,
        ensures
            r == (self@ >> ((idx * 4) as u16)) & 0xF,
    {
        (self.0 >> ((idx * 4) as u16)) & 0xF
    }

    /// The 8-bit field `idx` bytes up from the low end of the word
    /// (byte 0 is the low byte, byte 1 the high byte).
    pub fn get_byte(&self, idx: u32) -> (r: u16)
        requires
            idx <= 1,
        ensures
            r == (self@ >> ((idx * 8) as u16)) & 0xFF,
    {
        (self.0 >> ((idx * 8) as u16)) & 0xFF
    }

    /// The whole instruction word.
    pub fn to_u16(&self) -> (r: u16)
        ensures
            r == self@,
    {
        self.0
    }
}

} // verus!
