use crate::decode::decode_opcode;
use crate::decode::ArithKind;
use crate::decode::DecodedOp;
use crate::framebuffer::fb_wf;
use crate::framebuffer::FrameBuffer;
use crate::semantics::init_state;
use crate::semantics::spec_advance;
use crate::semantics::spec_arith;
use crate::semantics::spec_bcd;
use crate::semantics::spec_draw;
use crate::semantics::spec_draw_bit;
use crate::semantics::spec_draw_row;
use crate::semantics::spec_fetch;
use crate::semantics::spec_load_regs;
use crate::semantics::spec_step;
use crate::semantics::spec_store_regs;
use crate::semantics::sprite_bit;
use crate::semantics::wf_state;
use crate::semantics::InvalidPolicy;
use crate::semantics::State;
use crate::semantics::StepError;
use crate::Opcode;
use vstd::prelude::*;

verus! {

/// A fresh byte vector of `n` zeroes.
fn zeroed_bytes(n: usize) -> (r: Vec<u8>)
    ensures
        r@ == Seq::new(n as nat, |i: int| 0u8),
{
    let mut v: Vec<u8> = Vec::new();
    let mut i: usize = 0;
    while i < n
        invariant
            i <= n,
            v@.len() == i,
            forall|k: int| 0 <= k < i ==> v@[k] == 0u8,
        decreases n - i,
    {
        v.push(0u8);
        i = i + 1;
    }
    proof {
        assert(v@ =~= Seq::new(n as nat, |i: int| 0u8));
    }
    v
}

/// The CHIP-8 machine state and its executor. Its view is the
/// mathematical `State`, and `execute` is proved to implement the
/// reference small-step semantics `spec_step` on that view.
pub struct Cpu {
    memory: Vec<u8>,
    registers: Vec<u8>,
    index_register: u16,
    stack: Vec<u16>,
    delay_timer: u8,
    sound_timer: u8,
    program_counter: u16,
    frame_buffer: FrameBuffer,
    waiting_key: Option<u8>,
    invalid_policy: InvalidPolicy,
}

impl View for Cpu {
    type V = State;

    closed spec fn view(&self) -> State {
        State {
            mem: self.memory@,
            regs: self.registers@,
            index: self.index_register,
            pc: self.program_counter,
            stack: self.stack@,
            delay: self.delay_timer,
            sound: self.sound_timer,
            fb: self.frame_buffer@,
            waiting: self.waiting_key,
        }
    }
}

impl Cpu {
    /// The machine's policy for instruction words that decode to no
    /// defined pattern.
    pub closed spec fn policy(&self) -> InvalidPolicy {
        self.invalid_policy
    }

    /// Well-formedness of the machine: its view is a well-formed state.
    pub open spec fn wf(&self) -> bool {
        wf_state(self@)
    }

    /// A machine at power-on: memory, registers, timers and framebuffer
    /// zeroed, the stack empty, the program counter at 0x200, no
    /// key-wait pending, and invalid words ignored as no-ops.
    pub fn new() -> (r: Self)
        ensures
            r@ == init_state(),
            r.policy() == InvalidPolicy::Ignore,
            r.wf(),
    {
        let cpu = Cpu {
            memory: zeroed_bytes(4096),
            registers: zeroed_bytes(16),
            index_register: 0,
            stack: Vec::new(),
            delay_timer: 0,
            sound_timer: 0,
            program_counter: 0x200,
            frame_buffer: FrameBuffer::new(),
            waiting_key: None,
            invalid_policy: InvalidPolicy::Ignore,
        };
        proof {
            assert(cpu@ =~= init_state());
        }
        cpu
    }

    /// Chooses what the machine does with invalid instruction words.
    pub fn set_invalid_policy(&mut self, policy: InvalidPolicy)
        ensures
            final(self)@ == old(self)@,
            final(self).policy() == policy,
    {
        self.invalid_policy = policy;
    }

    /// Writes a program image into memory starting at 0x200, the
    /// conventional load address; the rest of the state is untouched.
    pub fn load_program(&mut self, program: &Vec<u8>)
        requires
            old(self).wf(),
            program@.len() <= 3584,
        ensures
            final(self).wf(),
            final(self).policy() == old(self).policy(),
            final(self)@ == (State { mem: final(self)@.mem, ..old(self)@ }),
            forall|i: int|
                0 <= i < program@.len() ==> final(self)@.mem[0x200 + i] == program@[i],
            forall|i: int|
                0 <= i < 4096 && !(0x200 <= i < 0x200 + program@.len()) ==> final(self)@.mem[i]
                    == old(self)@.mem[i],
    {
        let mut j: usize = 0;
        while j < program.len()
            invariant
                old(self).wf(),
                program@.len() <= 3584,
                j <= program@.len(),
                self@ == (State { mem: self@.mem, ..old(self)@ }),
                self.invalid_policy == old(self).invalid_policy,
                self@.mem.len() == 4096,
                forall|i: int| 0 <= i < j ==> self@.mem[0x200 + i] == program@[i],
                forall|i: int|
                    0 <= i < 4096 && !(0x200 <= i < 0x200 + j) ==> self@.mem[i]
                        == old(self)@.mem[i],
            decreases program@.len() - j,
        {
            self.memory[0x200 + j] = program[j];
            j = j + 1;
        }
    }

    /// The value of register Vi.
    pub fn get_register(&self, i: u8) -> (r: u8)
        requires
            self.wf(),
            i < 16,
        ensures
            r == self@.regs[i as int],
    {
        self.registers[i as usize]
    }

    /// Writes register Vi; the rest of the state is untouched.
    pub fn set_register(&mut self, i: u8, value: u8)
        requires
            old(self).wf(),
            i < 16,
        ensures
            final(self).wf(),
            final(self).policy() == old(self).policy(),
            final(self)@ == (State { regs: old(self)@.regs.update(i as int, value), ..old(self)@ }),
    {
        self.registers[i as usize] = value;
    }

    /// The program counter.
    pub fn pc(&self) -> (r: u16)
        ensures
            r == self@.pc,
    {
        self.program_counter
    }

    /// The index register.
    pub fn index(&self) -> (r: u16)
        ensures
            r == self@.index,
    {
        self.index_register
    }

    /// Writes the index register; the rest of the state is untouched.
    pub fn set_index(&mut self, value: u16)
        requires
            old(self).wf(),
            value < 4096,
        ensures
            final(self).wf(),
            final(self).policy() == old(self).policy(),
            final(self)@ == (State { index: value, ..old(self)@ }),
    {
        self.index_register = value;
    }

    /// The delay timer.
    pub fn delay_timer(&self) -> (r: u8)
        ensures
            r == self@.delay,
    {
        self.delay_timer
    }

    /// The sound timer.
    pub fn sound_timer(&self) -> (r: u8)
        ensures
            r == self@.sound,
    {
        self.sound_timer
    }

    /// Whether the audio collaborator should be emitting a tone.
    pub fn sound_active(&self) -> (r: bool)
        ensures
            r == (self@.sound > 0),
    {
        self.sound_timer > 0
    }

    /// How many return addresses the call stack holds.
    pub fn stack_depth(&self) -> (r: usize)
        ensures
            r == self@.stack.len(),
    {
        self.stack.len()
    }

    /// Whether the machine is halted on the blocking key-wait
    /// instruction, so the host should feed it the next key press.
    pub fn is_waiting_for_key(&self) -> (r: bool)
        ensures
            r == (self@.waiting is Some),
    {
        match self.waiting_key {
            Some(_) => true,
            None => false,
        }
    }

    /// A read-only snapshot of the framebuffer for the presentation
    /// collaborator.
    pub fn frame_buffer(&self) -> (r: &FrameBuffer)
        ensures
            r@ == self@.fb,
    {
        &self.frame_buffer
    }

    /// Reads one byte of memory; the address wraps to the 4096-byte
    /// space, as all CHIP-8 addresses do.
    pub fn read_memory(&self, addr: u16) -> (r: u8)
        requires
            self.wf(),
        ensures
            r == self@.mem[addr as int % 4096],
    {
        self.memory[(addr as usize) % 4096]
    }

    /// Writes one byte of memory at the wrapped address; the rest of
    /// the state is untouched.
    pub fn write_memory(&mut self, addr: u16, value: u8)
        requires
            old(self).wf(),
        ensures
            final(self).wf(),
            final(self).policy() == old(self).policy(),
            final(self)@ == (State {
                mem: old(self)@.mem.update(addr as int % 4096, value),
                ..old(self)@
            }),
    {
        self.memory[(addr as usize) % 4096] = value;
    }

    /// One tick of the external timing driver: each timer counts down
    /// toward zero and stays at zero once there, never wrapping.
    pub fn tick(&mut self)
        requires
            old(self).wf(),
        ensures
            final(self).wf(),
            final(self).policy() == old(self).policy(),
            final(self)@ == (State {
                delay: final(self)@.delay,
                sound: final(self)@.sound,
                ..old(self)@
            }),
            final(self)@.delay == if old(self)@.delay > 0 {
                (old(self)@.delay - 1) as u8
            } else {
                0u8
            },
            final(self)@.sound == if old(self)@.sound > 0 {
                (old(self)@.sound - 1) as u8
            } else {
                0u8
            },
    {
        if self.delay_timer > 0 {
            self.delay_timer = self.delay_timer - 1;
        }
        if self.sound_timer > 0 {
            self.sound_timer = self.sound_timer - 1;
        }
    }

    /// The instruction word at the program counter, high byte first.
    fn get_opcode(&self) -> (r: Opcode)
        requires
            self.wf(),
        ensures
            r@ == spec_fetch(self@),
    {
        let pc: usize = self.program_counter as usize;
        let hi: u8 = self.memory[pc];
        let lo: u8 = self.memory[(pc + 1) % 4096];
        proof {
            assert(((hi as u16) << 8u16) | (lo as u16) == hi as u16 * 256 + lo as u16)
                by (bit_vector);
        }
        Opcode(((hi as u16) << 8u16) | (lo as u16))
    }

    /// The program counter one instruction on, wrapped to 12 bits.
    fn advance_pc(pc: u16) -> (r: u16)
        requires
            pc < 4096,
        ensures
            r == spec_advance(pc),
    {
        (pc + 2) % 4096
    }

    /// The result and flag of one register-arithmetic operation.
    fn arith_exec(kind: ArithKind, vx: u8, vy: u8) -> (r: (u8, Option<u8>))
        ensures
            r == spec_arith(kind, vx, vy),
    {
        match kind {
            ArithKind::Mov => (vy, None),
            ArithKind::Or => (vx | vy, None),
            ArithKind::And => (vx & vy, None),
            ArithKind::Xor => (vx ^ vy, None),
            ArithKind::Add => {
                let s: u16 = vx as u16 + vy as u16;
                (
                    (s % 256) as u8,
                    if s > 255 {
                        Some(1u8)
                    } else {
                        Some(0u8)
                    },
                )
            },
            ArithKind::Sub => {
                let d: u16 = vx as u16 + 256 - vy as u16;
                (
                    (d % 256) as u8,
                    if vx >= vy {
                        Some(1u8)
                    } else {
                        Some(0u8)
                    },
                )
            },
            ArithKind::Shr => (vx / 2, Some(vx % 2)),
            ArithKind::Subn => {
                let d: u16 = vy as u16 + 256 - vx as u16;
                (
                    (d % 256) as u8,
                    if vy >= vx {
                        Some(1u8)
                    } else {
                        Some(0u8)
                    },
                )
            },
            ArithKind::Shl => ((vx % 128) * 2, Some(vx / 128)),
        }
    }

    /// Composites sprite bits `i..8` of `b` onto the framebuffer row
    /// `y`, starting at column `x + i`, exactly as `spec_draw_row`.
    fn exec_draw_row(fb: &mut FrameBuffer, b: u8, x: usize, y: usize, i: usize) -> (col: bool)
        requires
            fb_wf(old(fb)@),
            i <= 8,
            x < 512,
            y < 512,
        ensures
            fb_wf(final(fb)@),
            final(fb)@ == spec_draw_row(old(fb)@, b, x as int, y as int, i as nat).0,
            col == spec_draw_row(old(fb)@, b, x as int, y as int, i as nat).1,
        decreases 8 - i,
    {
        if i >= 8 {
            false
        } else {
            let sh: u8 = (7 - i) as u8;
            let on: bool = (b >> sh) & 1 != 0;
            proof {
                assert(on == sprite_bit(b, i as nat));
            }
            let mut hit: bool = false;
            if on {
                let lit: bool = fb.get(x + i, y);
                fb.set(
                    x + i,
                    y,
                    if lit {
                        0u8
                    } else {
                        1u8
                    },
                );
                hit = lit;
                proof {
                    assert(spec_draw_bit(old(fb)@, x as int + i, y as int, on) == (fb@, lit));
                }
            }
            let rest: bool = Self::exec_draw_row(fb, b, x, y, i + 1);
            hit || rest
        }
    }

    /// Draws sprite rows `r..n` from memory at the index register,
    /// exactly as `spec_draw`; only the framebuffer changes.
    fn exec_draw_rows(&mut self, vx: u8, vy: u8, n: u8, r: u8) -> (col: bool)
        requires
            old(self).wf(),
            r <= n,
            n < 16,
        ensures
            final(self).wf(),
            final(self).policy() == old(self).policy(),
            final(self)@ == (State { fb: final(self)@.fb, ..old(self)@ }),
            final(self)@.fb == spec_draw(
                old(self)@.fb,
                old(self)@.mem,
                old(self)@.index,
                vx,
                vy,
                n,
                r as nat,
            ).0,
            col == spec_draw(
                old(self)@.fb,
                old(self)@.mem,
                old(self)@.index,
                vx,
                vy,
                n,
                r as nat,
            ).1,
        decreases n - r,
    {
        if r >= n {
            false
        } else {
            let addr: usize = (self.index_register as usize + r as usize) % 4096;
            let b: u8 = self.memory[addr];
            let hit: bool = Self::exec_draw_row(
                &mut self.frame_buffer,
                b,
                vx as usize,
                vy as usize + r as usize,
                0,
            );
            let rest: bool = self.exec_draw_rows(vx, vy, n, r + 1);
            hit || rest
        }
    }

    /// Stores registers V0..=V(k-1) into memory at the index register
    /// onwards, exactly as `spec_store_regs`; only memory changes.
    fn exec_store_regs(&mut self, k: usize)
        requires
            old(self).wf(),
            k <= 16,
        ensures
            final(self).wf(),
            final(self).policy() == old(self).policy(),
            final(self)@ == (State { mem: final(self)@.mem, ..old(self)@ }),
            final(self)@.mem == spec_store_regs(
                old(self)@.mem,
                old(self)@.regs,
                old(self)@.index,
                k as nat,
            ),
        decreases k,
    {
        if k > 0 {
            self.exec_store_regs(k - 1);
            let addr: usize = (self.index_register as usize + (k - 1)) % 4096;
            self.memory[addr] = self.registers[k - 1];
        }
    }

    /// Loads registers V0..=V(k-1) from memory at the index register
    /// onwards, exactly as `spec_load_regs`; only registers change.
    fn exec_load_regs(&mut self, k: usize)
        requires
            old(self).wf(),
            k <= 16,
        ensures
            final(self).wf(),
            final(self).policy() == old(self).policy(),
            final(self)@ == (State { regs: final(self)@.regs, ..old(self)@ }),
            final(self)@.regs == spec_load_regs(
                old(self)@.regs,
                old(self)@.mem,
                old(self)@.index,
                k as nat,
            ),
        decreases k,
    {
        if k > 0 {
            self.exec_load_regs(k - 1);
            let addr: usize = (self.index_register as usize + (k - 1)) % 4096;
            self.registers[k - 1] = self.memory[addr];
        }
    }

    /// Stores the decimal digits of `v` at the index register onwards,
    /// exactly as `spec_bcd`; only memory changes.
    fn exec_bcd(&mut self, v: u8)
        requires
            old(self).wf(),
        ensures
            final(self).wf(),
            final(self).policy() == old(self).policy(),
            final(self)@ == (State { mem: final(self)@.mem, ..old(self)@ }),
            final(self)@.mem == spec_bcd(old(self)@.mem, old(self)@.index, v),
    {
        let base: usize = self.index_register as usize;
        self.memory[base % 4096] = v / 100;
        self.memory[(base + 1) % 4096] = (v / 10) % 10;
        self.memory[(base + 2) % 4096] = v % 10;
    }

    /// Executes one instruction: fetches the word at the program
    /// counter, decodes it, and applies its state transition, exactly
    /// as the reference semantics `spec_step` states -- including the
    /// default advance of the program counter by 2 wherever the
    /// instruction does not set it itself. While a key-wait is
    /// pending, nothing is fetched: the step consumes `pressed`, if
    /// any, and resumes past the wait instruction. A reported error
    /// (stack overflow or underflow, invalid word under the `Fault`
    /// policy) leaves the state exactly as it was, so the host may
    /// keep the machine and inspect it.
    ///
    /// `keys` is the keypad bitmask (bit k set when key k is down),
    /// `pressed` the key newly pressed since the last step, if any,
    /// and `random` one byte from the host's randomness source; all
    /// three come from external collaborators.
    pub fn execute(&mut self, keys: u16, pressed: Option<u8>, random: u8) -> (r: Result<
        (),
        StepError,
    >)
        requires
            old(self).wf(),
        ensures
            final(self).wf(),
            final(self).policy() == old(self).policy(),
            match spec_step(old(self)@, old(self).policy(), keys, pressed, random) {
                Ok(s) => r is Ok && final(self)@ == s,
                Err(e) => r == Err::<(), StepError>(e) && final(self)@ == old(self)@,
            },
    {
        match self.waiting_key {
            Some(x) => {
                match pressed {
                    Some(k) => {
                        self.registers[x as usize] = k & 0xF;
                        self.waiting_key = None;
                        self.program_counter = Self::advance_pc(self.program_counter);
                        Ok(())
                    },
                    None => Ok(()),
                }
            },
            None => {
                let op = self.get_opcode();
                let d = decode_opcode(op);
                match d {
                    DecodedOp::Cls => {
                        self.frame_buffer.clear();
                        self.program_counter = Self::advance_pc(self.program_counter);
                        Ok(())
                    },
                    DecodedOp::Ret => {
                        if self.stack.len() == 0 {
                            Err(StepError::StackUnderflow)
                        } else {
                            let addr: u16 = match self.stack.pop() {
                                Some(a) => a,
                                None => 0,
                            };
                            self.program_counter = addr;
                            Ok(())
                        }
                    },
                    DecodedOp::Jmp { addr } => {
                        self.program_counter = addr;
                        Ok(())
                    },
                    DecodedOp::Call { addr } => {
                        if self.stack.len() >= 16 {
                            Err(StepError::StackOverflow)
                        } else {
                            let ret: u16 = Self::advance_pc(self.program_counter);
                            self.stack.push(ret);
                            self.program_counter = addr;
                            Ok(())
                        }
                    },
                    DecodedOp::SkipEqByte { x, byte } => {
                        let cond: bool = self.registers[x as usize] == byte;
                        self.program_counter = self.skip_pc(cond);
                        Ok(())
                    },
                    DecodedOp::SkipNeByte { x, byte } => {
                        let cond: bool = self.registers[x as usize] != byte;
                        self.program_counter = self.skip_pc(cond);
                        Ok(())
                    },
                    DecodedOp::SkipEqReg { x, y } => {
                        let cond: bool = self.registers[x as usize] == self.registers[y as usize];
                        self.program_counter = self.skip_pc(cond);
                        Ok(())
                    },
                    DecodedOp::Load { x, byte } => {
                        self.registers[x as usize] = byte;
                        self.program_counter = Self::advance_pc(self.program_counter);
                        Ok(())
                    },
                    DecodedOp::AddByte { x, byte } => {
                        let s: u16 = self.registers[x as usize] as u16 + byte as u16;
                        self.registers[x as usize] = (s % 256) as u8;
                        self.program_counter = Self::advance_pc(self.program_counter);
                        Ok(())
                    },
                    DecodedOp::Arith { kind, x, y } => {
                        let vx: u8 = self.registers[x as usize];
                        let vy: u8 = self.registers[y as usize];
                        let res = Self::arith_exec(kind, vx, vy);
                        self.registers[x as usize] = res.0;
                        match res.1 {
                            Some(f) => {
                                self.registers[15] = f;
                            },
                            None => {},
                        }
                        self.program_counter = Self::advance_pc(self.program_counter);
                        Ok(())
                    },
                    DecodedOp::SkipNeReg { x, y } => {
                        let cond: bool = self.registers[x as usize] != self.registers[y as usize];
                        self.program_counter = self.skip_pc(cond);
                        Ok(())
                    },
                    DecodedOp::LoadIndex { addr } => {
                        self.index_register = addr;
                        self.program_counter = Self::advance_pc(self.program_counter);
                        Ok(())
                    },
                    DecodedOp::JumpOffset { addr } => {
                        self.program_counter = (addr + self.registers[0] as u16) % 4096;
                        Ok(())
                    },
                    DecodedOp::Random { x, byte } => {
                        self.registers[x as usize] = random & byte;
                        self.program_counter = Self::advance_pc(self.program_counter);
                        Ok(())
                    },
                    DecodedOp::Draw { x, y, n } => {
                        let vx: u8 = self.registers[x as usize];
                        let vy: u8 = self.registers[y as usize];
                        let col: bool = self.exec_draw_rows(vx, vy, n, 0);
                        self.registers[15] = if col {
                            1u8
                        } else {
                            0u8
                        };
                        self.program_counter = Self::advance_pc(self.program_counter);
                        Ok(())
                    },
                    DecodedOp::SkipKeyPressed { x } => {
                        let k: u8 = self.registers[x as usize] & 0xF;
                        proof {
                            let kv = self.registers@[x as int];
                            assert((kv & 0xF) < 16) by (bit_vector);
                        }
                        let down: bool = (keys >> (k as u16)) & 1 != 0;
                        self.program_counter = self.skip_pc(down);
                        Ok(())
                    },
                    DecodedOp::SkipKeyNotPressed { x } => {
                        let k: u8 = self.registers[x as usize] & 0xF;
                        proof {
                            let kv = self.registers@[x as int];
                            assert((kv & 0xF) < 16) by (bit_vector);
                        }
                        let down: bool = (keys >> (k as u16)) & 1 != 0;
                        self.program_counter = self.skip_pc(!down);
                        Ok(())
                    },
                    DecodedOp::ReadDelay { x } => {
                        self.registers[x as usize] = self.delay_timer;
                        self.program_counter = Self::advance_pc(self.program_counter);
                        Ok(())
                    },
                    DecodedOp::WaitKey { x } => {
                        self.waiting_key = Some(x);
                        Ok(())
                    },
                    DecodedOp::SetDelay { x } => {
                        self.delay_timer = self.registers[x as usize];
                        self.program_counter = Self::advance_pc(self.program_counter);
                        Ok(())
                    },
                    DecodedOp::SetSound { x } => {
                        self.sound_timer = self.registers[x as usize];
                        self.program_counter = Self::advance_pc(self.program_counter);
                        Ok(())
                    },
                    DecodedOp::AddIndex { x } => {
                        self.index_register = (self.index_register + self.registers[x as usize]
                            as u16) % 4096;
                        self.program_counter = Self::advance_pc(self.program_counter);
                        Ok(())
                    },
                    DecodedOp::LoadFont { x } => {
                        let v: u8 = self.registers[x as usize];
                        proof {
                            let vv = self.registers@[x as int];
                            assert((vv & 0xF) <= 15) by (bit_vector);
                        }
                        self.index_register = ((v & 0xF) as u16) * 5;
                        self.program_counter = Self::advance_pc(self.program_counter);
                        Ok(())
                    },
                    DecodedOp::StoreBcd { x } => {
                        let v: u8 = self.registers[x as usize];
                        self.exec_bcd(v);
                        self.program_counter = Self::advance_pc(self.program_counter);
                        Ok(())
                    },
                    DecodedOp::StoreRegs { x } => {
                        self.exec_store_regs(x as usize + 1);
                        self.program_counter = Self::advance_pc(self.program_counter);
                        Ok(())
                    },
                    DecodedOp::LoadRegs { x } => {
                        self.exec_load_regs(x as usize + 1);
                        self.program_counter = Self::advance_pc(self.program_counter);
                        Ok(())
                    },
                    DecodedOp::Invalid => {
                        match self.invalid_policy {
                            InvalidPolicy::Ignore => {
                                self.program_counter = Self::advance_pc(self.program_counter);
                                Ok(())
                            },
                            InvalidPolicy::Fault => Err(
                                StepError::InvalidOpcode { opcode: op.to_u16() },
                            ),
                        }
                    },
                }
            },
        }
    }

    /// The program counter after a conditional skip.
    fn skip_pc(&self, cond: bool) -> (r: u16)
        requires
            self.wf(),
        ensures
            r == crate::semantics::spec_skip(self@.pc, cond),
    {
        if cond {
            Self::advance_pc(Self::advance_pc(self.program_counter))
        } else {
            Self::advance_pc(self.program_counter)
        }
    }
}

} // verus!
