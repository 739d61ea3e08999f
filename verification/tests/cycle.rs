use chip8::{Chip8, Chip8Error, RunStop};

/// Cycles enough to walk from the start address to the end of memory.
const TO_THE_END: usize = 4096;

#[test]
fn op_6010_v0_equals_16() {
    let mut chip8 = Chip8::new();
    chip8.write_memory(0x200, 0x60);
    chip8.write_memory(0x201, 0x10);
    let stop = chip8.run(TO_THE_END);
    assert_eq!(stop, Ok(RunStop::EndOfMemory));
    assert_eq!(chip8.register(0), 16);
}

#[test]
fn op_6311_v3_equals_17() {
    let mut chip8 = Chip8::new();
    chip8.write_memory(0x200, 0x63);
    chip8.write_memory(0x201, 0x11);
    let stop = chip8.run(TO_THE_END);
    assert_eq!(stop, Ok(RunStop::EndOfMemory));
    assert_eq!(chip8.register(3), 17);
}

#[test]
fn op_6310_7311_v3_equals_33() {
    let mut chip8 = Chip8::new();
    chip8.write_memory(0x200, 0x63);
    chip8.write_memory(0x201, 0x10);
    chip8.write_memory(0x202, 0x73);
    chip8.write_memory(0x203, 0x11);
    let stop = chip8.run(TO_THE_END);
    assert_eq!(stop, Ok(RunStop::EndOfMemory));
    assert_eq!(chip8.register(3), 33);
}

#[test]
fn op_6310_6208_8320_v3_equals_8() {
    let mut chip8 = Chip8::new();
    // 6310
    chip8.write_memory(0x200, 0x63);
    chip8.write_memory(0x201, 0x10);
    // 6208
    chip8.write_memory(0x202, 0x62);
    chip8.write_memory(0x203, 0x08);
    // 8320
    chip8.write_memory(0x204, 0x83);
    chip8.write_memory(0x205, 0x20);

    let stop = chip8.run(TO_THE_END);
    assert_eq!(stop, Ok(RunStop::EndOfMemory));
    assert_eq!(chip8.register(3), 8);
}

#[test]
fn new_machine_is_zeroed_but_for_pc_and_font() {
    let chip8 = Chip8::new();
    assert_eq!(chip8.pc(), 0x200);
    assert_eq!(chip8.sp(), 0);
    assert_eq!(chip8.index(), 0);
    assert_eq!(chip8.delay_timer(), 0);
    assert_eq!(chip8.sound_timer(), 0);
    for x in 0..16u8 {
        assert_eq!(chip8.register(x), 0);
        assert!(!chip8.is_key_down(x));
    }
    assert!(chip8.framebuffer().iter().all(|b| *b == 0));
    for addr in 0..4096u16 {
        if !(0x50..0xA0).contains(&addr) {
            assert_eq!(chip8.read_memory(addr), 0);
        }
    }
    // Glyph 0, glyph 1 and the last row of glyph F.
    assert_eq!(chip8.read_memory(0x50), 0xF0);
    assert_eq!(chip8.read_memory(0x51), 0x90);
    assert_eq!(chip8.read_memory(0x54), 0xF0);
    assert_eq!(chip8.read_memory(0x55), 0x20);
    assert_eq!(chip8.read_memory(0x59), 0x70);
    assert_eq!(chip8.read_memory(0x9B), 0xF0);
    assert_eq!(chip8.read_memory(0x9F), 0x80);
}

#[test]
fn one_cycle_of_6010_sets_v0_and_moves_pc() {
    let mut chip8 = Chip8::new();
    assert!(chip8.load(&[0x60, 0x10]));
    assert_eq!(chip8.step(), Ok(()));
    assert_eq!(chip8.register(0), 16);
    assert_eq!(chip8.pc(), 0x202);
}

#[test]
fn two_cycles_load_then_add_immediate() {
    let mut chip8 = Chip8::new();
    assert!(chip8.load(&[0x63, 0x10, 0x73, 0x11]));
    assert_eq!(chip8.step(), Ok(()));
    assert_eq!(chip8.register(3), 16);
    assert_eq!(chip8.step(), Ok(()));
    assert_eq!(chip8.register(3), 33);
    assert_eq!(chip8.pc(), 0x204);
}

#[test]
fn three_cycles_register_copy() {
    let mut chip8 = Chip8::new();
    assert!(chip8.load(&[0x63, 0x10, 0x62, 0x08, 0x83, 0x20]));
    for _ in 0..3 {
        assert_eq!(chip8.step(), Ok(()));
    }
    assert_eq!(chip8.register(3), 8);
    assert_eq!(chip8.register(2), 8);
    assert_eq!(chip8.pc(), 0x206);
}

#[test]
fn unassigned_first_instruction_is_a_decode_error_at_0x200() {
    let mut chip8 = Chip8::new();
    assert!(chip8.load(&[0x00, 0x01]));
    assert_eq!(chip8.step(), Err(Chip8Error::Decode { addr: 0x200, instruction: 0x0001 }));
    // Nothing has moved.
    assert_eq!(chip8.pc(), 0x200);
    assert_eq!(
        chip8.run(10),
        Err(Chip8Error::Decode { addr: 0x200, instruction: 0x0001 })
    );
}

#[test]
fn the_zero_word_does_nothing_but_advance() {
    let mut chip8 = Chip8::new();
    assert_eq!(chip8.step(), Ok(()));
    assert_eq!(chip8.pc(), 0x202);
    assert_eq!(chip8.sp(), 0);
    assert_eq!(chip8.index(), 0);
}

#[test]
fn load_refuses_a_program_that_does_not_fit() {
    let mut chip8 = Chip8::new();
    let too_long: Vec<u8> = vec![0xAB; 4096 - 0x200 + 1];
    assert!(!chip8.load(&too_long));
    assert_eq!(chip8.read_memory(0x200), 0);
    let exact: Vec<u8> = vec![0xAB; 4096 - 0x200];
    assert!(chip8.load(&exact));
    assert_eq!(chip8.read_memory(0x200), 0xAB);
    assert_eq!(chip8.read_memory(0xFFF), 0xAB);
    assert_eq!(chip8.read_memory(0x1FF), 0);
    assert!(chip8.load(&[]));
    assert_eq!(chip8.read_memory(0x200), 0xAB);
}

#[test]
fn fetch_at_the_last_byte_is_a_memory_fault() {
    let mut chip8 = Chip8::new();
    // JP 0xFFF
    assert!(chip8.load(&[0x1F, 0xFF]));
    assert_eq!(chip8.step(), Ok(()));
    assert_eq!(chip8.pc(), 0xFFF);
    assert_eq!(chip8.step(), Err(Chip8Error::MemoryBounds { start: 0xFFF, end: 0x1000 }));
    assert_eq!(chip8.pc(), 0xFFF);
}

#[test]
fn fetch_at_the_last_word_succeeds_and_run_ends_there() {
    let mut chip8 = Chip8::new();
    // JP 0xFFE, and LD V1, 0x22 in the last word of memory.
    assert!(chip8.load(&[0x1F, 0xFE]));
    chip8.write_memory(0xFFE, 0x61);
    chip8.write_memory(0xFFF, 0x22);
    assert_eq!(chip8.run(100), Ok(RunStop::EndOfMemory));
    assert_eq!(chip8.register(1), 0x22);
    assert_eq!(chip8.pc(), 0x1000);
    // There is nothing left to fetch.
    assert_eq!(chip8.step(), Err(Chip8Error::MemoryBounds { start: 0x1000, end: 0x1001 }));
}

#[test]
fn run_stops_when_its_cycles_are_used_up() {
    let mut chip8 = Chip8::new();
    // 0x200: ADD V0, 1; 0x202: JP 0x200
    assert!(chip8.load(&[0x70, 0x01, 0x12, 0x00]));
    assert_eq!(chip8.run(0), Ok(RunStop::CycleLimit));
    assert_eq!(chip8.register(0), 0);
    assert_eq!(chip8.run(7), Ok(RunStop::CycleLimit));
    // Four additions and three jumps.
    assert_eq!(chip8.register(0), 4);
    assert_eq!(chip8.pc(), 0x202);
}

#[test]
fn run_stops_at_a_fault_and_keeps_what_was_done() {
    let mut chip8 = Chip8::new();
    // LD V5, 0x42; RET with nothing to return to.
    assert!(chip8.load(&[0x65, 0x42, 0x00, 0xEE]));
    assert_eq!(chip8.run(100), Err(Chip8Error::StackUnderflow));
    assert_eq!(chip8.register(5), 0x42);
    assert_eq!(chip8.pc(), 0x202);
}

#[test]
fn key_wait_holds_the_machine_until_a_key_is_down() {
    let mut chip8 = Chip8::new();
    // LD V4, K; LD V1, 0x77
    assert!(chip8.load(&[0xF4, 0x0A, 0x61, 0x77]));
    assert!(chip8.is_waiting_for_key());
    for _ in 0..3 {
        assert_eq!(chip8.step(), Ok(()));
        assert_eq!(chip8.pc(), 0x200);
        assert_eq!(chip8.register(4), 0);
    }
    assert_eq!(chip8.run(100), Ok(RunStop::KeyWait));
    assert_eq!(chip8.pc(), 0x200);

    chip8.set_key(0xB, true);
    chip8.set_key(0x7, true);
    assert!(!chip8.is_waiting_for_key());
    assert_eq!(chip8.step(), Ok(()));
    // The lowest key that is down.
    assert_eq!(chip8.register(4), 0x7);
    assert_eq!(chip8.pc(), 0x202);
    assert_eq!(chip8.step(), Ok(()));
    assert_eq!(chip8.register(1), 0x77);
}

#[test]
fn key_release_is_seen() {
    let mut chip8 = Chip8::new();
    chip8.set_key(3, true);
    assert!(chip8.is_key_down(3));
    chip8.set_key(3, false);
    assert!(!chip8.is_key_down(3));
    assert!(chip8.load(&[0xF0, 0x0A]));
    assert!(chip8.is_waiting_for_key());
}

#[test]
fn call_then_ret_in_cycles_comes_back_after_the_call() {
    let mut chip8 = Chip8::new();
    // 0x200: CALL 0x2A0 ... 0x2A0: RET
    assert!(chip8.load(&[0x22, 0xA0]));
    chip8.write_memory(0x2A0, 0x00);
    chip8.write_memory(0x2A1, 0xEE);
    assert_eq!(chip8.step(), Ok(()));
    assert_eq!(chip8.pc(), 0x2A0);
    assert_eq!(chip8.sp(), 1);
    assert_eq!(chip8.step(), Ok(()));
    assert_eq!(chip8.pc(), 0x202);
    assert_eq!(chip8.sp(), 0);
}

#[test]
fn a_fault_in_a_cycle_leaves_pc_at_the_instruction() {
    let mut chip8 = Chip8::new();
    // LD I, 0xFFE; LD B, V0
    assert!(chip8.load(&[0xAF, 0xFE, 0xF0, 0x33]));
    assert_eq!(chip8.step(), Ok(()));
    assert_eq!(chip8.step(), Err(Chip8Error::MemoryBounds { start: 0xFFE, end: 0x1000 }));
    assert_eq!(chip8.pc(), 0x202);
    assert_eq!(chip8.read_memory(0xFFE), 0);
    assert_eq!(chip8.read_memory(0xFFF), 0);
}
