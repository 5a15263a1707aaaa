use crate::decode::spec_decode;
use crate::decode::ArithKind;
use crate::decode::DecodedOp;
use crate::framebuffer::fb_blank;
use crate::framebuffer::spec_pixel;
use crate::framebuffer::spec_row_set;
use vstd::prelude::*;

verus! {

/// What the machine does with an instruction word that decodes to no
/// defined pattern: treat it as a no-op, or stop with a decode fault.
/// Reference CHIP-8 interpreters differ here, so it is a configurable
/// policy of the machine rather than a fixed rule.
#[derive(Copy, Clone, PartialEq, Eq, Structural, Debug)]
pub enum InvalidPolicy {
    /// Skip over the word as if it were a no-op.
    Ignore,
    /// Report the word as a decode fault and leave the state untouched.
    Fault,
}

/// A fatal condition of one execution step. The step that reports an
/// error leaves the machine state exactly as it was.
#[derive(Copy, Clone, PartialEq, Eq, Structural, Debug)]
pub enum StepError {
    /// A call was attempted with the stack already at capacity.
    StackOverflow,
    /// A return was attempted with the stack empty.
    StackUnderflow,
    /// The fetched word decodes to no instruction and the machine's
    /// policy is `Fault`.
    InvalidOpcode { opcode: u16 },
}

/// The mathematical model of the whole machine state: memory,
/// registers, index register, program counter, return stack, the two
/// timers, the framebuffer rows, and the explicit "awaiting a key"
/// state of the blocking key-wait instruction.
#[verifier::ext_equal]
pub ghost struct State {
    pub mem: Seq<u8>,
    pub regs: Seq<u8>,
    pub index: u16,
    pub pc: u16,
    pub stack: Seq<u16>,
    pub delay: u8,
    pub sound: u8,
    pub fb: Seq<u64>,
    pub waiting: Option<u8>,
}

/// The capacity of the return stack: a 17th nested call overflows.
pub open spec fn stack_capacity() -> int {
    16
}

/// Well-formedness of a machine state: 4096 bytes of memory, 16
/// registers, a bounded stack of 12-bit return addresses, 12-bit
/// program counter and index register, 32 framebuffer rows, and a
/// register index below 16 while a key-wait is pending.
pub open spec fn wf_state(s: State) -> bool {
    &&& s.mem.len() == 4096
    &&& s.regs.len() == 16
    &&& s.stack.len() <= stack_capacity()
    &&& (forall|i: int| 0 <= i < s.stack.len() ==> s.stack[i] < 4096)
    &&& s.pc < 4096
    &&& s.index < 4096
    &&& s.fb.len() == 32
    &&& match s.waiting {
        Some(x) => x < 16,
        None => true,
    }
}

/// The state of a machine at power-on: everything zeroed, the program
/// counter at 0x200 where programs are conventionally loaded.
pub open spec fn init_state() -> State {
    State {
        mem: Seq::new(4096, |i: int| 0u8),
        regs: Seq::new(16, |i: int| 0u8),
        index: 0,
        pc: 0x200,
        stack: Seq::empty(),
        delay: 0,
        sound: 0,
        fb: fb_blank(),
        waiting: None,
    }
}

/// The instruction word at the program counter: two bytes, high byte
/// first, the second address wrapping at the 4096-byte boundary.
pub open spec fn spec_fetch(s: State) -> u16 {
    (s.mem[s.pc as int] * 256 + s.mem[(s.pc + 1) % 4096]) as u16
}

/// The program counter one instruction further on, wrapped to the
/// 4096-byte address space.
pub open spec fn spec_advance(pc: u16) -> u16 {
    (((pc as int) + 2) % 4096) as u16
}

/// The result and flag of one register-arithmetic operation on the
/// values of Vx and Vy: the new value of Vx, and the value written to
/// VF afterwards, if the operation writes VF at all. Add reports carry
/// (1 on overflow past 255); the subtractions report the absence of a
/// borrow (1 when the minuend is at least the subtrahend) -- the
/// inverted polarity CHIP-8 programs rely on; the shifts report the
/// bit shifted out.
pub open spec fn spec_arith(kind: ArithKind, vx: u8, vy: u8) -> (u8, Option<u8>) {
    match kind {
        ArithKind::Mov => (vy, None),
        ArithKind::Or => (vx | vy, None),
        ArithKind::And => (vx & vy, None),
        ArithKind::Xor => (vx ^ vy, None),
        ArithKind::Add => (
            ((vx + vy) % 256) as u8,
            Some(
                if vx + vy > 255 {
                    1u8
                } else {
                    0u8
                },
            ),
        ),
        ArithKind::Sub => (
            ((vx + 256 - vy) % 256) as u8,
            Some(
                if vx >= vy {
                    1u8
                } else {
                    0u8
                },
            ),
        ),
        ArithKind::Shr => ((vx / 2) as u8, Some((vx % 2) as u8)),
        ArithKind::Subn => (
            ((vy + 256 - vx) % 256) as u8,
            Some(
                if vy >= vx {
                    1u8
                } else {
                    0u8
                },
            ),
        ),
        ArithKind::Shl => (((vx % 128) * 2) as u8, Some((vx / 128) as u8)),
    }
}

/// The registers after one register-arithmetic operation: Vx takes the
/// result, then VF takes the flag where the operation writes one (so
/// when x is 15, the flag wins -- the VF overwrite quirk).
pub open spec fn spec_arith_regs(regs: Seq<u8>, kind: ArithKind, x: int, y: int) -> Seq<u8> {
    let r = spec_arith(kind, regs[x], regs[y]);
    match r.1 {
        Some(f) => regs.update(x, r.0).update(15, f),
        None => regs.update(x, r.0),
    }
}

/// One sprite pixel XOR-composited onto the framebuffer: an `on`
/// sprite bit toggles the (wrapped) target pixel and reports a
/// collision when it erased a set pixel; an off bit changes nothing.
pub open spec fn spec_draw_bit(fb: Seq<u64>, x: int, y: int, on: bool) -> (Seq<u64>, bool) {
    if on {
        let lit = spec_pixel(fb, x, y);
        (
            fb.update(
                y % 32,
                spec_row_set(
                    fb[y % 32],
                    (x % 64) as u64,
                    if lit {
                        0u64
                    } else {
                        1u64
                    },
                ),
            ),
            lit,
        )
    } else {
        (fb, false)
    }
}

/// Sprite bit `j` of a row byte, counted from the left: bit 0 is the
/// byte's most significant bit and lands on the leftmost pixel.
pub open spec fn sprite_bit(b: u8, j: nat) -> bool {
    (b >> ((7 - j) as u8)) & 1 != 0
}

/// One 8-pixel sprite row, bits `i..8` of `b`, composited left to
/// right starting at column `x + i` of row `y`; the flag is true when
/// any bit erased a set pixel.
pub open spec fn spec_draw_row(fb: Seq<u64>, b: u8, x: int, y: int, i: nat) -> (Seq<u64>, bool)
    decreases 8 - i,
{
    if i >= 8 {
        (fb, false)
    } else {
        let first = spec_draw_bit(fb, x + i, y, sprite_bit(b, i));
        let rest = spec_draw_row(first.0, b, x, y, i + 1);
        (rest.0, first.1 || rest.1)
    }
}

/// Sprite rows `r..n`, each read from memory at the index register
/// plus its row number (wrapped to 12 bits) and drawn one row further
/// down; the flag collects the collisions of all rows.
pub open spec fn spec_draw(
    fb: Seq<u64>,
    mem: Seq<u8>,
    index: u16,
    vx: u8,
    vy: u8,
    n: u8,
    r: nat,
) -> (Seq<u64>, bool)
    decreases n - r,
{
    if r >= n {
        (fb, false)
    } else {
        let row = spec_draw_row(fb, mem[(index + r) % 4096], vx as int, vy + r, 0);
        let rest = spec_draw(row.0, mem, index, vx, vy, n, r + 1);
        (rest.0, row.1 || rest.1)
    }
}

/// Memory after storing registers V0..=V(k-1) at the index register
/// onwards, each address wrapped to 12 bits.
pub open spec fn spec_store_regs(mem: Seq<u8>, regs: Seq<u8>, index: u16, k: nat) -> Seq<u8>
    decreases k,
{
    if k == 0 {
        mem
    } else {
        spec_store_regs(mem, regs, index, (k - 1) as nat).update(
            (index + k - 1) % 4096,
            regs[k - 1],
        )
    }
}

/// Registers after loading V0..=V(k-1) from the index register
/// onwards, each address wrapped to 12 bits.
pub open spec fn spec_load_regs(regs: Seq<u8>, mem: Seq<u8>, index: u16, k: nat) -> Seq<u8>
    decreases k,
{
    if k == 0 {
        regs
    } else {
        spec_load_regs(regs, mem, index, (k - 1) as nat).update(
            k - 1,
            mem[(index + k - 1) % 4096],
        )
    }
}

/// Memory after storing the three decimal digits of `v` (hundreds,
/// tens, ones) at the index register onwards.
pub open spec fn spec_bcd(mem: Seq<u8>, index: u16, v: u8) -> Seq<u8> {
    mem.update(index as int % 4096, (v / 100) as u8).update(
        (index + 1) % 4096,
        ((v / 10) % 10) as u8,
    ).update((index + 2) % 4096, (v % 10) as u8)
}

/// Whether key `k` (low 4 bits) is down in the keypad bitmask `keys`.
pub open spec fn spec_key_down(keys: u16, k: u8) -> bool {
    (keys >> ((k & 0xF) as u16)) & 1 != 0
}

/// The program counter after a conditional skip: two instructions on
/// when the condition holds, one otherwise.
pub open spec fn spec_skip(pc: u16, cond: bool) -> u16 {
    if cond {
        spec_advance(spec_advance(pc))
    } else {
        spec_advance(pc)
    }
}

/// One step of the machine: the reference small-step semantics of
/// CHIP-8 that the executor is proved to implement. A pending key-wait
/// consumes the freshly pressed key, if any, before anything is
/// fetched; otherwise the word at the program counter is fetched,
/// decoded, and applied. An erroneous step (stack overflow or
/// underflow, or an invalid word under the `Fault` policy) changes
/// nothing and reports the error.
pub open spec fn spec_step(
    pre: State,
    policy: InvalidPolicy,
    keys: u16,
    pressed: Option<u8>,
    random: u8,
) -> Result<State, StepError> {
    match pre.waiting {
        Some(x) => match pressed {
            Some(k) => Ok(
                State {
                    regs: pre.regs.update(x as int, k & 0xF),
                    waiting: None,
                    pc: spec_advance(pre.pc),
                    ..pre
                },
            ),
            None => Ok(pre),
        },
        None => {
            let w = spec_fetch(pre);
            match spec_decode(w) {
                DecodedOp::Cls => Ok(State { fb: fb_blank(), pc: spec_advance(pre.pc), ..pre }),
                DecodedOp::Ret => if pre.stack.len() == 0 {
                    Err(StepError::StackUnderflow)
                } else {
                    Ok(State { pc: pre.stack.last(), stack: pre.stack.drop_last(), ..pre })
                },
                DecodedOp::Jmp { addr } => Ok(State { pc: addr, ..pre }),
                DecodedOp::Call { addr } => if pre.stack.len() >= stack_capacity() {
                    Err(StepError::StackOverflow)
                } else {
                    Ok(State { stack: pre.stack.push(spec_advance(pre.pc)), pc: addr, ..pre })
                },
                DecodedOp::SkipEqByte { x, byte } => Ok(
                    State { pc: spec_skip(pre.pc, pre.regs[x as int] == byte), ..pre },
                ),
                DecodedOp::SkipNeByte { x, byte } => Ok(
                    State { pc: spec_skip(pre.pc, pre.regs[x as int] != byte), ..pre },
                ),
                DecodedOp::SkipEqReg { x, y } => Ok(
                    State {
                        pc: spec_skip(pre.pc, pre.regs[x as int] == pre.regs[y as int]),
                        ..pre
                    },
                ),
                DecodedOp::Load { x, byte } => Ok(
                    State {
                        regs: pre.regs.update(x as int, byte),
                        pc: spec_advance(pre.pc),
                        ..pre
                    },
                ),
                DecodedOp::AddByte { x, byte } => Ok(
                    State {
                        regs: pre.regs.update(
                            x as int,
                            ((pre.regs[x as int] + byte) % 256) as u8,
                        ),
                        pc: spec_advance(pre.pc),
                        ..pre
                    },
                ),
                DecodedOp::Arith { kind, x, y } => Ok(
                    State {
                        regs: spec_arith_regs(pre.regs, kind, x as int, y as int),
                        pc: spec_advance(pre.pc),
                        ..pre
                    },
                ),
                DecodedOp::SkipNeReg { x, y } => Ok(
                    State {
                        pc: spec_skip(pre.pc, pre.regs[x as int] != pre.regs[y as int]),
                        ..pre
                    },
                ),
                DecodedOp::LoadIndex { addr } => Ok(
                    State { index: addr, pc: spec_advance(pre.pc), ..pre },
                ),
                DecodedOp::JumpOffset { addr } => Ok(
                    State { pc: ((addr + pre.regs[0]) % 4096) as u16, ..pre },
                ),
                DecodedOp::Random { x, byte } => Ok(
                    State {
                        regs: pre.regs.update(x as int, random & byte),
                        pc: spec_advance(pre.pc),
                        ..pre
                    },
                ),
                DecodedOp::Draw { x, y, n } => {
                    let d = spec_draw(
                        pre.fb,
                        pre.mem,
                        pre.index,
                        pre.regs[x as int],
                        pre.regs[y as int],
                        n,
                        0,
                    );
                    Ok(
                        State {
                            fb: d.0,
                            regs: pre.regs.update(
                                15,
                                if d.1 {
                                    1u8
                                } else {
                                    0u8
                                },
                            ),
                            pc: spec_advance(pre.pc),
                            ..pre
                        },
                    )
                },
                DecodedOp::SkipKeyPressed { x } => Ok(
                    State {
                        pc: spec_skip(pre.pc, spec_key_down(keys, pre.regs[x as int])),
                        ..pre
                    },
                ),
                DecodedOp::SkipKeyNotPressed { x } => Ok(
                    State {
                        pc: spec_skip(pre.pc, !spec_key_down(keys, pre.regs[x as int])),
                        ..pre
                    },
                ),
                DecodedOp::ReadDelay { x } => Ok(
                    State {
                        regs: pre.regs.update(x as int, pre.delay),
                        pc: spec_advance(pre.pc),
                        ..pre
                    },
                ),
                DecodedOp::WaitKey { x } => Ok(State { waiting: Some(x), ..pre }),
                DecodedOp::SetDelay { x } => Ok(
                    State { delay: pre.regs[x as int], pc: spec_advance(pre.pc), ..pre },
                ),
                DecodedOp::SetSound { x } => Ok(
                    State { sound: pre.regs[x as int], pc: spec_advance(pre.pc), ..pre },
                ),
                DecodedOp::AddIndex { x } => Ok(
                    State {
                        index: ((pre.index + pre.regs[x as int]) % 4096) as u16,
                        pc: spec_advance(pre.pc),
                        ..pre
                    },
                ),
                DecodedOp::LoadFont { x } => Ok(
                    State {
                        index: ((pre.regs[x as int] & 0xF) * 5) as u16,
                        pc: spec_advance(pre.pc),
                        ..pre
                    },
                ),
                DecodedOp::StoreBcd { x } => Ok(
                    State {
                        mem: spec_bcd(pre.mem, pre.index, pre.regs[x as int]),
                        pc: spec_advance(pre.pc),
                        ..pre
                    },
                ),
                DecodedOp::StoreRegs { x } => Ok(
                    State {
                        mem: spec_store_regs(pre.mem, pre.regs, pre.index, (x + 1) as nat),
                        pc: spec_advance(pre.pc),
                        ..pre
                    },
                ),
                DecodedOp::LoadRegs { x } => Ok(
                    State {
                        regs: spec_load_regs(pre.regs, pre.mem, pre.index, (x + 1) as nat),
                        pc: spec_advance(pre.pc),
                        ..pre
                    },
                ),
                DecodedOp::Invalid => match policy {
                    InvalidPolicy::Ignore => Ok(State { pc: spec_advance(pre.pc), ..pre }),
                    InvalidPolicy::Fault => Err(StepError::InvalidOpcode { opcode: w }),
                },
            }
        },
    }
}

/// Drawing never changes the number of framebuffer rows: one sprite
/// row keeps all 32 rows.
pub proof fn lemma_draw_row_len(fb: Seq<u64>, b: u8, x: int, y: int, i: nat)
    requires
        fb.len() == 32,
    ensures
        spec_draw_row(fb, b, x, y, i).0.len() == 32,
    decreases 8 - i,
{
    if i < 8 {
        let first = spec_draw_bit(fb, x + i, y, sprite_bit(b, i));
        lemma_draw_row_len(first.0, b, x, y, i + 1);
    }
}

/// Drawing never changes the number of framebuffer rows.
pub proof fn lemma_draw_len(
    fb: Seq<u64>,
    mem: Seq<u8>,
    index: u16,
    vx: u8,
    vy: u8,
    n: u8,
    r: nat,
)
    requires
        fb.len() == 32,
    ensures
        spec_draw(fb, mem, index, vx, vy, n, r).0.len() == 32,
    decreases n - r,
{
    if r < n {
        let row = spec_draw_row(fb, mem[(index + r) % 4096], vx as int, vy + r, 0);
        lemma_draw_row_len(fb, mem[(index + r) % 4096], vx as int, vy + r, 0);
        lemma_draw_len(row.0, mem, index, vx, vy, n, r + 1);
    }
}

/// A register dump keeps the memory 4096 bytes long.
pub proof fn lemma_store_regs_len(mem: Seq<u8>, regs: Seq<u8>, index: u16, k: nat)
    requires
        mem.len() == 4096,
    ensures
        spec_store_regs(mem, regs, index, k).len() == 4096,
    decreases k,
{
    if k > 0 {
        lemma_store_regs_len(mem, regs, index, (k - 1) as nat);
    }
}

/// A register load keeps all 16 registers.
pub proof fn lemma_load_regs_len(regs: Seq<u8>, mem: Seq<u8>, index: u16, k: nat)
    requires
        regs.len() == 16,
        k <= 16,
    ensures
        spec_load_regs(regs, mem, index, k).len() == 16,
    decreases k,
{
    if k > 0 {
        lemma_load_regs_len(regs, mem, index, (k - 1) as nat);
    }
}

/// Every successful step takes a well-formed state to a well-formed
/// state; an erroneous step changes nothing at all.
#[verifier::rlimit(50)]
pub proof fn lemma_step_preserves_wf(
    pre: State,
    policy: InvalidPolicy,
    keys: u16,
    pressed: Option<u8>,
    random: u8,
)
    requires
        wf_state(pre),
    ensures
        spec_step(pre, policy, keys, pressed, random) is Ok ==> wf_state(
            spec_step(pre, policy, keys, pressed, random)->Ok_0,
        ),
{
    if pre.waiting is None {
        let w = spec_fetch(pre);
        crate::decode::lemma_decode_wf(w);
        match spec_decode(w) {
            DecodedOp::Draw { x, y, n } => {
                lemma_draw_len(pre.fb, pre.mem, pre.index, pre.regs[x as int], pre.regs[y as int], n, 0);
            },
            DecodedOp::LoadFont { x } => {
                let v = pre.regs[x as int];
                assert((v & 0xF) <= 15) by (bit_vector);
            },
            DecodedOp::StoreBcd { x } => {
                assert(spec_bcd(pre.mem, pre.index, pre.regs[x as int]).len() == 4096);
            },
            DecodedOp::StoreRegs { x } => {
                lemma_store_regs_len(pre.mem, pre.regs, pre.index, (x + 1) as nat);
            },
            DecodedOp::LoadRegs { x } => {
                lemma_load_regs_len(pre.regs, pre.mem, pre.index, (x + 1) as nat);
            },
            _ => {},
        }
    }
}

/// After a jump instruction the program counter equals the jump target
/// exactly: no further advance is applied on top of it.
pub proof fn lemma_jump_sets_pc(
    pre: State,
    policy: InvalidPolicy,
    keys: u16,
    pressed: Option<u8>,
    random: u8,
)
    requires
        wf_state(pre),
        pre.waiting is None,
        spec_decode(spec_fetch(pre)) is Jmp,
    ensures
        spec_step(pre, policy, keys, pressed, random) is Ok,
        spec_decode(spec_fetch(pre)) matches DecodedOp::Jmp { addr } ==> spec_step(
            pre,
            policy,
            keys,
            pressed,
            random,
        )->Ok_0.pc == addr,
{
}

/// A call succeeds exactly while the stack has room: any run of nested
/// calls up to the capacity succeeds, and the call past capacity is
/// reported as a stack overflow that changes nothing.
pub proof fn lemma_call_stack_capacity(
    pre: State,
    policy: InvalidPolicy,
    keys: u16,
    pressed: Option<u8>,
    random: u8,
)
    requires
        wf_state(pre),
        pre.waiting is None,
        spec_decode(spec_fetch(pre)) is Call,
    ensures
        pre.stack.len() < stack_capacity() ==> spec_step(pre, policy, keys, pressed, random)
            is Ok && spec_step(pre, policy, keys, pressed, random)->Ok_0.stack.len()
            == pre.stack.len() + 1,
        pre.stack.len() == stack_capacity() ==> spec_step(pre, policy, keys, pressed, random)
            == Err::<State, StepError>(StepError::StackOverflow),
{
}

/// A call followed by a return round-trips: when the instruction the
/// call jumps to is a return, the program counter afterwards equals
/// what one normal advance past the call site would have given, and
/// the stack is back to what it was.
pub proof fn lemma_call_return_round_trip(
    pre: State,
    policy: InvalidPolicy,
    keys: u16,
    pressed: Option<u8>,
    random: u8,
    keys2: u16,
    pressed2: Option<u8>,
    random2: u8,
)
    requires
        wf_state(pre),
        pre.waiting is None,
        spec_decode(spec_fetch(pre)) is Call,
        pre.stack.len() < stack_capacity(),
    ensures
        spec_step(pre, policy, keys, pressed, random) is Ok,
        ({
            let mid = spec_step(pre, policy, keys, pressed, random)->Ok_0;
            spec_decode(spec_fetch(mid)) is Ret ==> {
                &&& spec_step(mid, policy, keys2, pressed2, random2) is Ok
                &&& spec_step(mid, policy, keys2, pressed2, random2)->Ok_0.pc == spec_advance(
                    pre.pc,
                )
                &&& spec_step(mid, policy, keys2, pressed2, random2)->Ok_0.stack == pre.stack
            }
        }),
{
    let mid = spec_step(pre, policy, keys, pressed, random)->Ok_0;
    assert(mid.stack == pre.stack.push(spec_advance(pre.pc)));
    assert(mid.stack.last() == spec_advance(pre.pc));
    assert(mid.stack.drop_last() =~= pre.stack);
}

/// Drawing a sprite row whose lit bits all land on already-set pixels
/// reports a collision, provided at least one remaining bit is lit.
pub proof fn lemma_draw_row_collision_when_lit(fb: Seq<u64>, b: u8, x: int, y: int, i: nat)
    requires
        fb.len() == 32,
        i <= 8,
        exists|j: nat| i <= j < 8 && #[trigger] sprite_bit(b, j),
        forall|c: int| x <= c < x + 8 ==> #[trigger] spec_pixel(fb, c, y),
    ensures
        spec_draw_row(fb, b, x, y, i).1,
    decreases 8 - i,
{
    if sprite_bit(b, i) {
        assert(spec_pixel(fb, x + i, y));
    } else {
        let j0 = choose|j: nat| i <= j < 8 && #[trigger] sprite_bit(b, j);
        assert(i + 1 <= j0 < 8 && sprite_bit(b, j0));
        lemma_draw_row_collision_when_lit(fb, b, x, y, i + 1);
    }
}

/// Two columns less than a screen width apart wrap to different
/// columns.
proof fn lemma_mod64_distinct(a: int, c: int)
    requires
        a < c < a + 64,
    ensures
        a % 64 != c % 64,
{
    let d = c - a;
    assert((a % 64 + d) % 64 == c % 64) by {
        vstd::arithmetic::div_mod::lemma_add_mod_noop(a, d, 64);
        assert(d % 64 == d);
    }
    if a % 64 + d < 64 {
        assert((a % 64 + d) % 64 == a % 64 + d);
    } else {
        assert((a % 64 + d) % 64 == a % 64 + d - 64);
    }
}

/// Drawing a sprite row onto all-clear pixels reports no collision.
pub proof fn lemma_draw_row_no_collision_when_clear(fb: Seq<u64>, b: u8, x: int, y: int, i: nat)
    requires
        fb.len() == 32,
        i <= 8,
        forall|c: int| x + i <= c < x + 8 ==> !#[trigger] spec_pixel(fb, c, y),
    ensures
        !spec_draw_row(fb, b, x, y, i).1,
    decreases 8 - i,
{
    if i < 8 {
        let first = spec_draw_bit(fb, x + i, y, sprite_bit(b, i));
        assert(!first.1);
        if sprite_bit(b, i) {
            let row = fb[y % 32];
            let xm = ((x + i) % 64) as u64;
            assert forall|c: int| x + i + 1 <= c < x + 8 implies !#[trigger] spec_pixel(
                first.0,
                c,
                y,
            ) by {
                assert(!spec_pixel(fb, c, y));
                assert(first.0[y % 32] == spec_row_set(row, xm, 1u64));
                lemma_mod64_distinct(x + i, c);
                assert(0 <= c % 64 < 64);
                crate::framebuffer::lemma_row_set_bit(row, xm, 1u64, (c % 64) as u64);
                assert(((spec_row_set(row, xm, 1u64) >> ((c % 64) as u64)) & 1 != 0) == ((row
                    >> ((c % 64) as u64)) & 1 != 0));
            }
            lemma_draw_row_no_collision_when_clear(first.0, b, x, y, i + 1);
        } else {
            lemma_draw_row_no_collision_when_clear(fb, b, x, y, i + 1);
        }
    }
}

} // verus!

