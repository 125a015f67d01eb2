use chip8::cpu::{alu, bcd, draw_sprite, first_key, glyph_address, Cpu, Fault};
use chip8::entropy::{entropy_seed, seed_from};
use chip8::memory::{font, initial_memory};
use chip8::{HEIGHT, MEMORY_SIZE, PIXEL_ON, PROGRAM_START, WIDTH};

struct Machine {
    cpu: Cpu,
    memory: Vec<u8>,
    stack: Vec<u16>,
    screen: Vec<u32>,
    delay: u8,
    sound: u8,
}

fn machine(cosmic: bool, program: &[u8]) -> Machine {
    let mut memory = vec![0u8; MEMORY_SIZE];
    memory[PROGRAM_START..PROGRAM_START + program.len()].copy_from_slice(program);
    Machine {
        cpu: Cpu::with_seed(cosmic, 0x1234_5678_9abc_def0),
        memory,
        stack: Vec::new(),
        screen: vec![0u32; WIDTH * HEIGHT],
        delay: 0,
        sound: 0,
    }
}

fn step_keys(m: &mut Machine, pressed: &[bool; 16], released: &[bool; 16]) -> Result<bool, Fault> {
    m.cpu.tick(&mut m.memory, &mut m.stack, &mut m.screen, &mut m.delay, &mut m.sound, pressed, released)
}

fn step(m: &mut Machine) -> Result<bool, Fault> {
    step_keys(m, &[false; 16], &[false; 16])
}

fn run(m: &mut Machine, n: usize) {
    for _ in 0..n {
        step(m).unwrap();
    }
}

#[test]
fn add_sets_carry() {
    let mut m = machine(false, &[0x60, 0xF0, 0x61, 0x20, 0x80, 0x14]);
    run(&mut m, 3);
    assert_eq!(m.cpu.v[0], 0x10);
    assert_eq!(m.cpu.v[15], 1);
    let mut m = machine(false, &[0x60, 0x10, 0x61, 0x20, 0x80, 0x14]);
    run(&mut m, 3);
    assert_eq!(m.cpu.v[0], 0x30);
    assert_eq!(m.cpu.v[15], 0);
}

#[test]
fn sub_sets_no_borrow() {
    let mut m = machine(false, &[0x60, 0x05, 0x61, 0x03, 0x80, 0x15]);
    run(&mut m, 3);
    assert_eq!(m.cpu.v[0], 2);
    assert_eq!(m.cpu.v[15], 1);
    let mut m = machine(false, &[0x60, 0x03, 0x61, 0x05, 0x80, 0x15]);
    run(&mut m, 3);
    assert_eq!(m.cpu.v[0], 254);
    assert_eq!(m.cpu.v[15], 0);
    let mut m = machine(false, &[0x60, 0x03, 0x61, 0x05, 0x80, 0x17]);
    run(&mut m, 3);
    assert_eq!(m.cpu.v[0], 2);
    assert_eq!(m.cpu.v[15], 1);
}

#[test]
fn flag_register_as_operand() {
    // v[15] += v[1] with overflow: the flag overwrites the sum.
    let mut m = machine(false, &[0x6F, 0xFF, 0x61, 0x02, 0x8F, 0x14]);
    run(&mut m, 3);
    assert_eq!(m.cpu.v[15], 1);
    let mut m = machine(false, &[0x6F, 0x03, 0x8F, 0xF6]);
    run(&mut m, 2);
    assert_eq!(m.cpu.v[15], 1);
}

#[test]
fn shifts_follow_dialect() {
    let program = [0x60, 0x04, 0x61, 0x07, 0x80, 0x16];
    let mut plain = machine(false, &program);
    run(&mut plain, 3);
    assert_eq!(plain.cpu.v[0], 2);
    assert_eq!(plain.cpu.v[15], 0);
    let mut cosmic = machine(true, &program);
    run(&mut cosmic, 3);
    assert_eq!(cosmic.cpu.v[0], 3);
    assert_eq!(cosmic.cpu.v[15], 1);
    let mut left = machine(false, &[0x60, 0x81, 0x80, 0x0E]);
    run(&mut left, 2);
    assert_eq!(left.cpu.v[0], 2);
    assert_eq!(left.cpu.v[15], 1);
}

#[test]
fn clear_screen_turns_every_cell_off() {
    let mut m = machine(false, &[0x00, 0xE0]);
    for k in (0..WIDTH * HEIGHT).step_by(3) {
        m.screen[k] = PIXEL_ON;
    }
    assert_eq!(step(&mut m), Ok(false));
    assert!(m.screen.iter().all(|&c| c == 0));
}

#[test]
fn draw_twice_restores_and_collides() {
    // i := font glyph 0; draw it twice at (0, 0).
    let mut m = machine(false, &[0xA0, 0x50, 0xD0, 0x05, 0xD0, 0x05]);
    m.memory[0x50..0x55].copy_from_slice(&[0xF0, 0x90, 0x90, 0x90, 0xF0]);
    run(&mut m, 1);
    assert_eq!(step(&mut m), Ok(true));
    assert_eq!(m.cpu.v[15], 0);
    assert_eq!(m.screen[0], PIXEL_ON);
    assert_eq!(m.screen[WIDTH + 1], 0);
    assert_eq!(m.screen.iter().filter(|&&c| c == PIXEL_ON).count(), 14);
    assert_eq!(step(&mut m), Ok(true));
    assert_eq!(m.cpu.v[15], 1);
    assert!(m.screen.iter().all(|&c| c == 0));
}

#[test]
fn draw_clips_at_right_and_bottom_edges() {
    let memory = {
        let mut mem = vec![0u8; MEMORY_SIZE];
        mem[0x300] = 0xFF;
        mem[0x301] = 0xFF;
        mem
    };
    let mut screen = vec![0u32; WIDTH * HEIGHT];
    let hit = draw_sprite(&memory, 0x300, &mut screen, (WIDTH - 1) as u8, (HEIGHT - 1) as u8, 2);
    assert!(!hit);
    assert_eq!(screen.iter().filter(|&&c| c == PIXEL_ON).count(), 1);
    assert_eq!(screen[(HEIGHT - 1) * WIDTH + WIDTH - 1], PIXEL_ON);
    assert_eq!(screen[0], 0);
}

#[test]
fn draw_wraps_start_coordinates() {
    let mut memory = vec![0u8; MEMORY_SIZE];
    memory[0x300] = 0x80;
    let mut screen = vec![0u32; WIDTH * HEIGHT];
    draw_sprite(&memory, 0x300, &mut screen, (WIDTH + 2) as u8, (HEIGHT + 1) as u8, 1);
    assert_eq!(screen[WIDTH + 2], PIXEL_ON);
}

#[test]
fn skips_advance_by_four_or_two() {
    let mut m = machine(false, &[0x60, 0x07, 0x30, 0x07]);
    run(&mut m, 2);
    assert_eq!(m.cpu.pc, 0x202 + 4);
    let mut m = machine(false, &[0x60, 0x07, 0x30, 0x08]);
    run(&mut m, 2);
    assert_eq!(m.cpu.pc, 0x204);
    let mut m = machine(false, &[0x60, 0x07, 0x40, 0x08]);
    run(&mut m, 2);
    assert_eq!(m.cpu.pc, 0x206);
    let mut m = machine(false, &[0x60, 0x07, 0x50, 0x10]);
    run(&mut m, 2);
    assert_eq!(m.cpu.pc, 0x204);
    let mut m = machine(false, &[0x60, 0x07, 0x90, 0x10]);
    run(&mut m, 2);
    assert_eq!(m.cpu.pc, 0x206);
}

#[test]
fn bcd_of_156() {
    let mut m = machine(false, &[0x60, 156, 0xA3, 0x00, 0xF0, 0x33]);
    run(&mut m, 3);
    assert_eq!(&m.memory[0x300..0x303], &[1, 5, 6]);
    assert_eq!(bcd(7), [0, 0, 7]);
}

#[test]
fn glyph_of_a() {
    let mut m = machine(false, &[0x60, 0x0A, 0xF0, 0x29]);
    run(&mut m, 2);
    assert_eq!(m.cpu.i, 0x82);
    assert_eq!(glyph_address(0x1A), 0x82);
}

#[test]
fn call_then_return() {
    let mut m = machine(false, &[0x23, 0x00]);
    m.memory[0x300] = 0x00;
    m.memory[0x301] = 0xEE;
    run(&mut m, 1);
    assert_eq!(m.cpu.pc, 0x300);
    assert_eq!(m.stack, vec![0x202]);
    run(&mut m, 1);
    assert_eq!(m.cpu.pc, 0x202);
    assert!(m.stack.is_empty());
}

#[test]
fn return_on_empty_stack_is_fatal() {
    let mut m = machine(false, &[0x00, 0xEE]);
    assert_eq!(step(&mut m), Err(Fault::EmptyStack));
}

#[test]
fn wait_for_key_release() {
    let mut m = machine(false, &[0xF3, 0x0A]);
    for _ in 0..5 {
        assert_eq!(step(&mut m), Ok(false));
        assert_eq!(m.cpu.pc, 0x200);
    }
    let mut released = [false; 16];
    released[9] = true;
    released[12] = true;
    step_keys(&mut m, &[false; 16], &released).unwrap();
    assert_eq!(m.cpu.pc, 0x202);
    assert_eq!(m.cpu.v[3], 9);
    assert_eq!(first_key(&[false; 16]), None);
}

#[test]
fn jump_with_offset_follows_dialect() {
    let program = [0x60, 0x02, 0x61, 0x10, 0xB1, 0x00];
    let mut plain = machine(false, &program);
    run(&mut plain, 3);
    assert_eq!(plain.cpu.pc, 0x110);
    let mut cosmic = machine(true, &program);
    run(&mut cosmic, 3);
    assert_eq!(cosmic.cpu.pc, 0x102);
}

#[test]
fn store_and_load_registers() {
    let mut m = machine(true, &[0x60, 0x01, 0x61, 0x02, 0xA3, 0x00, 0xF1, 0x55, 0xA3, 0x00, 0xF1, 0x65]);
    run(&mut m, 4);
    assert_eq!(&m.memory[0x300..0x302], &[1, 2]);
    assert_eq!(m.cpu.i, 0x302);
    let mut m2 = machine(false, &[0xA3, 0x00, 0xF1, 0x65]);
    m2.memory[0x300] = 9;
    m2.memory[0x301] = 8;
    run(&mut m2, 2);
    assert_eq!(&m2.cpu.v[0..2], &[9, 8]);
    assert_eq!(m2.cpu.i, 0x300);
}

#[test]
fn timers_and_keys() {
    let mut m = machine(false, &[0x60, 0x05, 0xF0, 0x15, 0xF0, 0x18, 0xF1, 0x07, 0xE0, 0x9E]);
    run(&mut m, 4);
    assert_eq!((m.delay, m.sound, m.cpu.v[1]), (5, 5, 5));
    let mut pressed = [false; 16];
    pressed[5] = true;
    step_keys(&mut m, &pressed, &[false; 16]).unwrap();
    assert_eq!(m.cpu.pc, 0x20C);
    let mut bad = machine(false, &[0x60, 0x20, 0xE0, 0xA1]);
    run(&mut bad, 1);
    assert_eq!(step(&mut bad), Err(Fault::KeyOutOfRange));
}

#[test]
fn index_add_wraps_and_errors_on_range() {
    let mut m = machine(false, &[0xAF, 0xFF, 0x60, 0x01, 0xF0, 0x1E, 0xF0, 0x33]);
    run(&mut m, 3);
    assert_eq!(m.cpu.i, 0x1000);
    assert_eq!(step(&mut m), Err(Fault::AddressOutOfRange));
}

#[test]
fn random_bytes_are_masked_and_vary() {
    let mut m = machine(false, &[0xC0, 0x0F]);
    run(&mut m, 1);
    assert!(m.cpu.v[0] <= 0x0F);
    assert_eq!(m.cpu.v[0], 0xF0 & 0x0F);
    let mut cpu = Cpu::with_seed(false, 1);
    let mut seen = std::collections::HashSet::new();
    for _ in 0..256 {
        seen.insert(cpu.next_byte());
    }
    assert!(seen.len() > 100);
}

#[test]
fn alu_and_seed() {
    assert_eq!(alu(4, 200, 100, false), Some((44, Some(1))));
    assert_eq!(alu(9, 1, 2, false), None);
    assert!(entropy_seed().is_some());
    assert!(Cpu::new(false).is_some());
}

#[test]
fn draw_faults_only_on_rows_read() {
    // i = 4095, two rows from the last screen row: only one row is read.
    let mut m = machine(false, &[0x61, 31, 0xAF, 0xFF, 0xD0, 0x12]);
    m.memory[0xFFF] = 0x80;
    run(&mut m, 2);
    assert_eq!(step(&mut m), Ok(true));
    assert_eq!(m.screen[31 * WIDTH], PIXEL_ON);
    let mut far = machine(false, &[0xAF, 0xFF, 0xD0, 0x02]);
    run(&mut far, 1);
    assert_eq!(step(&mut far), Err(Fault::AddressOutOfRange));
}

#[test]
fn register_skips_need_zero_low_nibble() {
    let mut m = machine(false, &[0x50, 0x11]);
    run(&mut m, 1);
    assert_eq!(m.cpu.pc, 0x202);
    let mut m = machine(false, &[0x60, 0x01, 0x90, 0x11]);
    run(&mut m, 2);
    assert_eq!(m.cpu.pc, 0x204);
}

#[test]
fn unmatched_opcodes_do_nothing() {
    let mut m = machine(false, &[0xF0, 0xFF, 0xE0, 0x00, 0x00, 0x01]);
    for pc in [0x202, 0x204, 0x206] {
        assert_eq!(step(&mut m), Ok(false));
        assert_eq!(m.cpu.pc, pc);
    }
    assert_eq!(m.cpu.v, vec![0u8; 16]);
}

#[test]
fn seed_from_drawn_bytes() {
    let buf = [1u8, 2, 3, 4, 5, 6, 7, 8];
    assert_eq!(seed_from(true, &buf), Some(0x0102_0304_0506_0708));
    assert_eq!(seed_from(false, &buf), None);
    let cpu = Cpu::from_seed(true, Some(42)).unwrap();
    assert_eq!((cpu.pc, cpu.i, cpu.rand_state, cpu.cosmic), (0x200, 0, 42, true));
    assert_eq!(cpu.v, vec![0u8; 16]);
    assert!(Cpu::from_seed(false, None).is_none());
}

#[test]
fn memory_image_holds_font_and_program() {
    let rom = vec![0x12, 0x34, 0x56];
    let m = initial_memory(&rom);
    assert_eq!(m.len(), MEMORY_SIZE);
    assert_eq!(&m[0x50..0x55], &[0xF0, 0x90, 0x90, 0x90, 0xF0]);
    assert_eq!(&m[0x9B..0xA0], &[0xF0, 0x80, 0xF0, 0x80, 0x80]);
    assert_eq!(&m[0x200..0x203], &[0x12, 0x34, 0x56]);
    assert_eq!(m[0x203], 0);
    assert_eq!(m[0x4F], 0);
    assert_eq!(m[0xA0], 0);
    assert_eq!(font().len(), 80);
    let full = initial_memory(&vec![0xAB; 3584]);
    assert_eq!(full[MEMORY_SIZE - 1], 0xAB);
}
