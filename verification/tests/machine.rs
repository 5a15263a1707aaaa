use chip8::Cpu;
use chip8::FrameBuffer;

fn put(cpu: &mut Cpu, addr: u16, word: u16) {
    cpu.write_memory(addr, (word >> 8) as u8);
    cpu.write_memory(addr + 1, (word & 0xFF) as u8);
}

fn step(cpu: &mut Cpu) -> Result<(), chip8::StepError> {
    cpu.execute(0, None, 0)
}

#[test]
fn power_on_state() {
    let cpu = Cpu::new();
    assert_eq!(cpu.pc(), 0x200);
    assert_eq!(cpu.index(), 0);
    assert_eq!(cpu.delay_timer(), 0);
    assert_eq!(cpu.sound_timer(), 0);
    assert_eq!(cpu.stack_depth(), 0);
    assert!(!cpu.is_waiting_for_key());
    assert_eq!(cpu.read_memory(0x200), 0);
    assert!(!cpu.frame_buffer().get(0, 0));
}

#[test]
fn framebuffer_wraps_both_coordinates() {
    // set(64, 0) behaves identically to set(0, 0).
    let mut a = FrameBuffer::new();
    let mut b = FrameBuffer::new();
    a.set(64, 0, 1);
    b.set(0, 0, 1);
    for x in 0..64 {
        for y in 0..32 {
            assert_eq!(a.get(x, y), b.get(x, y));
        }
    }
    assert!(a.get(0, 0));
    assert!(a.get(64, 0));

    let mut c = FrameBuffer::new();
    c.set(3, 35, 1);
    assert!(c.get(3, 3));
    c.set(3, 3, 0);
    assert!(!c.get(3, 35));
}

#[test]
fn framebuffer_set_and_clear() {
    let mut fb = FrameBuffer::new();
    fb.set(10, 20, 1);
    assert!(fb.get(10, 20));
    assert!(!fb.get(11, 20));
    assert!(!fb.get(10, 21));
    fb.set(10, 20, 0);
    assert!(!fb.get(10, 20));
    fb.set(63, 31, 1);
    fb.clear();
    assert!(!fb.get(63, 31));
}

#[test]
fn timers_tick_toward_zero_and_stay() {
    let mut cpu = Cpu::new();
    // Delay at 0 stays 0 after a tick: no underflow to a large value.
    cpu.tick();
    assert_eq!(cpu.delay_timer(), 0);
    assert_eq!(cpu.sound_timer(), 0);

    cpu.set_register(0, 2);
    put(&mut cpu, 0x200, 0xF015);
    put(&mut cpu, 0x202, 0xF018);
    assert_eq!(step(&mut cpu), Ok(()));
    assert_eq!(step(&mut cpu), Ok(()));
    assert_eq!(cpu.delay_timer(), 2);
    assert_eq!(cpu.sound_timer(), 2);
    assert!(cpu.sound_active());
    cpu.tick();
    assert_eq!(cpu.delay_timer(), 1);
    cpu.tick();
    assert_eq!(cpu.delay_timer(), 0);
    assert!(!cpu.sound_active());
    cpu.tick();
    assert_eq!(cpu.delay_timer(), 0);
    assert_eq!(cpu.sound_timer(), 0);
}

#[test]
fn read_delay_into_register() {
    let mut cpu = Cpu::new();
    cpu.set_register(3, 7);
    put(&mut cpu, 0x200, 0xF315);
    put(&mut cpu, 0x202, 0xF207);
    assert_eq!(step(&mut cpu), Ok(()));
    assert_eq!(step(&mut cpu), Ok(()));
    assert_eq!(cpu.get_register(2), 7);
}

#[test]
fn draw_sets_pixels_and_reports_collision() {
    let mut cpu = Cpu::new();
    cpu.set_register(0, 4);
    cpu.set_register(1, 9);
    cpu.set_index(0x300);
    cpu.write_memory(0x300, 0xFF);
    put(&mut cpu, 0x200, 0xD011);
    put(&mut cpu, 0x202, 0xD011);
    // Onto all-clear pixels: drawn, no collision.
    assert_eq!(step(&mut cpu), Ok(()));
    for i in 0..8 {
        assert!(cpu.frame_buffer().get(4 + i, 9));
    }
    assert_eq!(cpu.get_register(0xF), 0);
    // The same row again, onto the now-set pixels: erased, collision.
    assert_eq!(step(&mut cpu), Ok(()));
    for i in 0..8 {
        assert!(!cpu.frame_buffer().get(4 + i, 9));
    }
    assert_eq!(cpu.get_register(0xF), 1);
}

#[test]
fn draw_wraps_at_screen_edge() {
    let mut cpu = Cpu::new();
    cpu.set_register(0, 60);
    cpu.set_register(1, 31);
    cpu.set_index(0x300);
    cpu.write_memory(0x300, 0xFF);
    cpu.write_memory(0x301, 0xFF);
    put(&mut cpu, 0x200, 0xD012);
    assert_eq!(step(&mut cpu), Ok(()));
    // The first row wraps around the right edge on row 31; the second
    // row wraps to row 0.
    assert!(cpu.frame_buffer().get(60, 31));
    assert!(cpu.frame_buffer().get(63, 31));
    assert!(cpu.frame_buffer().get(0, 31));
    assert!(cpu.frame_buffer().get(3, 31));
    assert!(cpu.frame_buffer().get(60, 0));
    assert!(cpu.frame_buffer().get(3, 0));
    assert_eq!(cpu.get_register(0xF), 0);
}

#[test]
fn clear_screen_instruction() {
    let mut cpu = Cpu::new();
    cpu.set_register(0, 0);
    cpu.set_index(0x300);
    cpu.write_memory(0x300, 0x80);
    put(&mut cpu, 0x200, 0xD001);
    put(&mut cpu, 0x202, 0x00E0);
    assert_eq!(step(&mut cpu), Ok(()));
    assert!(cpu.frame_buffer().get(0, 0));
    assert_eq!(step(&mut cpu), Ok(()));
    assert!(!cpu.frame_buffer().get(0, 0));
    assert_eq!(cpu.pc(), 0x204);
}

#[test]
fn wait_key_blocks_until_pressed() {
    let mut cpu = Cpu::new();
    put(&mut cpu, 0x200, 0xF10A);
    assert_eq!(cpu.execute(0, None, 0), Ok(()));
    assert!(cpu.is_waiting_for_key());
    assert_eq!(cpu.pc(), 0x200);
    // No key yet: the machine stays put without re-executing anything.
    assert_eq!(cpu.execute(0, None, 0), Ok(()));
    assert!(cpu.is_waiting_for_key());
    assert_eq!(cpu.pc(), 0x200);
    // A freshly pressed key lands in V1 and execution resumes.
    assert_eq!(cpu.execute(0, Some(0xB), 0), Ok(()));
    assert!(!cpu.is_waiting_for_key());
    assert_eq!(cpu.get_register(1), 0xB);
    assert_eq!(cpu.pc(), 0x202);
}

#[test]
fn skip_on_key_state() {
    let mut cpu = Cpu::new();
    cpu.set_register(1, 0x5);
    put(&mut cpu, 0x200, 0xE19E);
    assert_eq!(cpu.execute(1 << 5, None, 0), Ok(()));
    assert_eq!(cpu.pc(), 0x204);

    let mut cpu = Cpu::new();
    cpu.set_register(1, 0x5);
    put(&mut cpu, 0x200, 0xE19E);
    assert_eq!(cpu.execute(0, None, 0), Ok(()));
    assert_eq!(cpu.pc(), 0x202);

    let mut cpu = Cpu::new();
    cpu.set_register(1, 0x5);
    put(&mut cpu, 0x200, 0xE1A1);
    assert_eq!(cpu.execute(0, None, 0), Ok(()));
    assert_eq!(cpu.pc(), 0x204);
}

#[test]
fn index_instructions() {
    let mut cpu = Cpu::new();
    put(&mut cpu, 0x200, 0xA123);
    assert_eq!(step(&mut cpu), Ok(()));
    assert_eq!(cpu.index(), 0x123);

    cpu.set_register(2, 0x10);
    put(&mut cpu, 0x202, 0xF21E);
    assert_eq!(step(&mut cpu), Ok(()));
    assert_eq!(cpu.index(), 0x133);

    cpu.set_register(3, 0x0A);
    put(&mut cpu, 0x204, 0xF329);
    assert_eq!(step(&mut cpu), Ok(()));
    assert_eq!(cpu.index(), 50);
}

#[test]
fn bcd_digits() {
    let mut cpu = Cpu::new();
    cpu.set_register(0, 234);
    cpu.set_index(0x300);
    put(&mut cpu, 0x200, 0xF033);
    assert_eq!(step(&mut cpu), Ok(()));
    assert_eq!(cpu.read_memory(0x300), 2);
    assert_eq!(cpu.read_memory(0x301), 3);
    assert_eq!(cpu.read_memory(0x302), 4);
}

#[test]
fn register_dump_and_load_round_trip() {
    let mut cpu = Cpu::new();
    for i in 0..4 {
        cpu.set_register(i, 10 + i);
    }
    cpu.set_index(0x320);
    put(&mut cpu, 0x200, 0xF355);
    assert_eq!(step(&mut cpu), Ok(()));
    for i in 0..4u16 {
        assert_eq!(cpu.read_memory(0x320 + i), 10 + i as u8);
    }
    // V4 was not stored.
    assert_eq!(cpu.read_memory(0x324), 0);
    for i in 0..4 {
        cpu.set_register(i, 0);
    }
    put(&mut cpu, 0x202, 0xF365);
    assert_eq!(step(&mut cpu), Ok(()));
    for i in 0..4 {
        assert_eq!(cpu.get_register(i), 10 + i);
    }
}

#[test]
fn load_program_writes_at_convention() {
    let mut cpu = Cpu::new();
    let program: Vec<u8> = vec![0xAA, 0xBB, 0xCC];
    cpu.load_program(&program);
    assert_eq!(cpu.read_memory(0x200), 0xAA);
    assert_eq!(cpu.read_memory(0x201), 0xBB);
    assert_eq!(cpu.read_memory(0x202), 0xCC);
    assert_eq!(cpu.read_memory(0x203), 0x00);
    assert_eq!(cpu.read_memory(0x1FF), 0x00);
}

#[test]
fn memory_addresses_wrap_to_twelve_bits() {
    let mut cpu = Cpu::new();
    cpu.write_memory(0x1005, 0x42);
    assert_eq!(cpu.read_memory(0x005), 0x42);
    assert_eq!(cpu.read_memory(0x1005), 0x42);
}
