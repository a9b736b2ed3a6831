use chip8::cpu::{AudioCommand, Cpu, CpuError, CARRY_REGISTER};
use chip8::keypad::Keypad;
use chip8::mmu::Chip8Mmu;

fn cpu() -> Cpu {
    Cpu::new(Chip8Mmu::new())
}

fn cpu_with_program(program: &[u8]) -> Cpu {
    let mut mmu = Chip8Mmu::new();
    mmu.load_program(program).unwrap();
    Cpu::new(mmu)
}

fn exec(cpu: &mut Cpu, opcode: u16) {
    cpu.exec_opcode(opcode, &Keypad::new(), 0).unwrap();
}

fn keys_with(key: u8) -> Keypad {
    let mut keys = Keypad::new();
    keys.set_key(key, true);
    keys
}

#[test]
fn pc_has_default() {
    let cpu = cpu();
    assert_eq!(0x200, cpu.program_counter());
    assert_eq!(0, cpu.index());
    assert!(cpu.call_stack().is_empty());
}

#[test]
#[allow(non_snake_case)]
fn op_00E0_blanks_screen() {
    let mut cpu = cpu();
    cpu.set_index(0); // glyph "0"
    exec(&mut cpu, 0xD005);
    assert!(cpu.screen().is_pixel_set(0, 0));

    exec(&mut cpu, 0x00E0);

    assert_eq!(0x204, cpu.program_counter());
    for y in 0..32 {
        for x in 0..64 {
            assert!(!cpu.screen().is_pixel_set(x, y));
        }
    }
}

#[test]
#[allow(non_snake_case)]
fn op_00EE_returns_from_subroutine() {
    let mut cpu = cpu();
    exec(&mut cpu, 0x13FE);
    exec(&mut cpu, 0x2600);
    assert_eq!(&[0x400], cpu.call_stack());

    exec(&mut cpu, 0x00EE);

    assert_eq!(0x400, cpu.program_counter());
    assert!(cpu.call_stack().is_empty());
}

#[test]
#[allow(non_snake_case)]
fn op_1NNN_jumps_to_address() {
    let mut cpu = cpu();
    exec(&mut cpu, 0x1400);
    assert_eq!(0x400, cpu.program_counter());
}

#[test]
#[allow(non_snake_case)]
fn op_2NNN_calls_subroutine() {
    let mut cpu = cpu();
    exec(&mut cpu, 0x2400);
    assert_eq!(0x400, cpu.program_counter());
    assert_eq!(&[0x202], cpu.call_stack());
}

#[test]
#[allow(non_snake_case)]
fn op_3XNN_skips_instruction_if_eq() {
    let mut cpu = cpu();
    cpu.set_register(4, 0x10);
    exec(&mut cpu, 0x3410);
    assert_eq!(0x204, cpu.program_counter());
}

#[test]
#[allow(non_snake_case)]
fn op_3XNN_does_not_skip_when_ne() {
    let mut cpu = cpu();
    cpu.set_register(4, 0x11);
    exec(&mut cpu, 0x3410);
    assert_eq!(0x202, cpu.program_counter());
}

#[test]
#[allow(non_snake_case)]
fn op_4XNN_skips_instruction_if_ne() {
    let mut cpu = cpu();
    cpu.set_register(4, 0x11);
    exec(&mut cpu, 0x4410);
    assert_eq!(0x204, cpu.program_counter());
}

#[test]
#[allow(non_snake_case)]
fn op_4XNN_does_not_skip_when_eq() {
    let mut cpu = cpu();
    cpu.set_register(4, 0x10);
    exec(&mut cpu, 0x4410);
    assert_eq!(0x202, cpu.program_counter());
}

#[test]
#[allow(non_snake_case)]
fn op_5XY0_skips_instruction_if_eq() {
    let mut cpu = cpu();
    cpu.set_register(4, 0x10);
    cpu.set_register(5, 0x10);
    exec(&mut cpu, 0x5450);
    assert_eq!(0x204, cpu.program_counter());
}

#[test]
#[allow(non_snake_case)]
fn op_5XY0_does_not_skip_when_ne() {
    let mut cpu = cpu();
    cpu.set_register(4, 0x10);
    cpu.set_register(5, 0x11);
    exec(&mut cpu, 0x5450);
    assert_eq!(0x202, cpu.program_counter());
}

#[test]
#[allow(non_snake_case)]
fn op_6XNN_sets_register() {
    let mut cpu = cpu();
    exec(&mut cpu, 0x6450);
    assert_eq!(0x50, cpu.register(4));
}

#[test]
#[allow(non_snake_case)]
fn op_7XNN_adds_to_register() {
    let mut cpu = cpu();
    cpu.set_register(4, 0x02);
    exec(&mut cpu, 0x74FF);
    assert_eq!(0x01, cpu.register(4));
    assert_eq!(0, cpu.register(CARRY_REGISTER));
}

#[test]
#[allow(non_snake_case)]
fn op_8XY0_sets_register() {
    let mut cpu = cpu();
    cpu.set_register(4, 0x02);
    exec(&mut cpu, 0x8140);
    assert_eq!(0x02, cpu.register(1));
}

#[test]
#[allow(non_snake_case)]
fn op_8XY1_does_or() {
    let mut cpu = cpu();
    cpu.set_register(1, 0b1011);
    cpu.set_register(4, 0b1101);
    cpu.set_register(CARRY_REGISTER, 1);
    exec(&mut cpu, 0x8141);
    assert_eq!(0b1111, cpu.register(1));
    assert_eq!(0, cpu.register(CARRY_REGISTER));
}

#[test]
#[allow(non_snake_case)]
fn op_8XY2_does_and() {
    let mut cpu = cpu();
    cpu.set_register(1, 0b1011);
    cpu.set_register(4, 0b1101);
    cpu.set_register(CARRY_REGISTER, 1);
    exec(&mut cpu, 0x8142);
    assert_eq!(0b1001, cpu.register(1));
    assert_eq!(0, cpu.register(CARRY_REGISTER));
}

#[test]
#[allow(non_snake_case)]
fn op_8XY3_does_xor() {
    let mut cpu = cpu();
    cpu.set_register(1, 0b1011);
    cpu.set_register(4, 0b1101);
    cpu.set_register(CARRY_REGISTER, 1);
    exec(&mut cpu, 0x8143);
    assert_eq!(0b0110, cpu.register(1));
    assert_eq!(0, cpu.register(CARRY_REGISTER));
}

#[test]
#[allow(non_snake_case)]
fn op_8XY4_does_add() {
    let mut cpu = cpu();
    cpu.set_register(CARRY_REGISTER, 0x01);
    cpu.set_register(1, 0x04);
    cpu.set_register(4, 0x03);
    exec(&mut cpu, 0x8144);
    assert_eq!(0x07, cpu.register(1));
    assert_eq!(0x00, cpu.register(CARRY_REGISTER));
}

#[test]
#[allow(non_snake_case)]
fn op_8XY4_does_add_with_carry() {
    let mut cpu = cpu();
    cpu.set_register(1, 0xFF);
    cpu.set_register(4, 0x03);
    exec(&mut cpu, 0x8144);
    assert_eq!(0x02, cpu.register(1));
    assert_eq!(0x01, cpu.register(CARRY_REGISTER));
}

#[test]
#[allow(non_snake_case)]
fn op_8XY4_carry_boundary() {
    let mut cpu = cpu();
    cpu.set_register(1, 0xFF);
    cpu.set_register(4, 0x00);
    exec(&mut cpu, 0x8144);
    assert_eq!(0xFF, cpu.register(1));
    assert_eq!(0, cpu.register(CARRY_REGISTER));

    cpu.set_register(1, 0x80);
    cpu.set_register(4, 0x80);
    exec(&mut cpu, 0x8144);
    assert_eq!(0x00, cpu.register(1));
    assert_eq!(1, cpu.register(CARRY_REGISTER));
}

#[test]
#[allow(non_snake_case)]
fn op_8XY5_does_sub() {
    let mut cpu = cpu();
    cpu.set_register(1, 0x05);
    cpu.set_register(4, 0x03);
    exec(&mut cpu, 0x8145);
    assert_eq!(0x02, cpu.register(1));
    assert_eq!(0x01, cpu.register(CARRY_REGISTER));
}

#[test]
#[allow(non_snake_case)]
fn op_8XY5_does_sub_with_carry() {
    let mut cpu = cpu();
    cpu.set_register(CARRY_REGISTER, 0x01);
    cpu.set_register(1, 0x01);
    cpu.set_register(4, 0x02);
    exec(&mut cpu, 0x8145);
    assert_eq!(0xFF, cpu.register(1));
    assert_eq!(0x00, cpu.register(CARRY_REGISTER));
}

#[test]
#[allow(non_snake_case)]
fn op_8XY5_equal_values_do_not_borrow() {
    let mut cpu = cpu();
    cpu.set_register(1, 0x42);
    cpu.set_register(4, 0x42);
    exec(&mut cpu, 0x8145);
    assert_eq!(0x00, cpu.register(1));
    assert_eq!(0x01, cpu.register(CARRY_REGISTER));
}

#[test]
#[allow(non_snake_case)]
fn op_8XY6_does_right_shift() {
    let mut cpu = cpu();
    cpu.set_register(1, 0b0101);
    exec(&mut cpu, 0x8146);
    assert_eq!(0b0010, cpu.register(1));
    assert_eq!(0x01, cpu.register(CARRY_REGISTER));
}

#[test]
#[allow(non_snake_case)]
fn op_8XY7_does_reverse_sub() {
    let mut cpu = cpu();
    cpu.set_register(1, 0x03);
    cpu.set_register(4, 0x05);
    exec(&mut cpu, 0x8147);
    assert_eq!(0x02, cpu.register(1));
    assert_eq!(0x01, cpu.register(CARRY_REGISTER));
}

#[test]
#[allow(non_snake_case)]
fn op_8XY7_does_reverse_sub_with_carry() {
    let mut cpu = cpu();
    cpu.set_register(CARRY_REGISTER, 0x01);
    cpu.set_register(1, 0x02);
    cpu.set_register(4, 0x01);
    exec(&mut cpu, 0x8147);
    assert_eq!(0xFF, cpu.register(1));
    assert_eq!(0x00, cpu.register(CARRY_REGISTER));
}

#[test]
#[allow(non_snake_case)]
fn op_8XYE_does_left_shift() {
    let mut cpu = cpu();
    cpu.set_register(1, 0b1000_0010);
    exec(&mut cpu, 0x814E);
    assert_eq!(0b0100, cpu.register(1));
    assert_eq!(0x01, cpu.register(CARRY_REGISTER));
}

#[test]
#[allow(non_snake_case)]
fn op_8XY6_on_carry_register_keeps_shifted_flag() {
    let mut cpu = cpu();
    cpu.set_register(CARRY_REGISTER, 0b0000_0011);
    exec(&mut cpu, 0x8F06);
    // The flag (1) is stored first, then the carry register itself is shifted.
    assert_eq!(0, cpu.register(CARRY_REGISTER));
}

#[test]
#[allow(non_snake_case)]
fn op_9XY0_skips_instruction_if_ne() {
    let mut cpu = cpu();
    cpu.set_register(4, 0x10);
    cpu.set_register(5, 0x11);
    exec(&mut cpu, 0x9450);
    assert_eq!(0x204, cpu.program_counter());
}

#[test]
#[allow(non_snake_case)]
fn op_9XY0_does_not_skip_when_eq() {
    let mut cpu = cpu();
    cpu.set_register(4, 0x10);
    cpu.set_register(5, 0x10);
    exec(&mut cpu, 0x9450);
    assert_eq!(0x202, cpu.program_counter());
}

#[test]
#[allow(non_snake_case)]
fn op_ANNN_sets_index() {
    let mut cpu = cpu();
    exec(&mut cpu, 0xA123);
    assert_eq!(0x123, cpu.index());
}

#[test]
#[allow(non_snake_case)]
fn op_BNNN_jumps() {
    let mut cpu = cpu();
    cpu.set_register(0, 0x10);
    exec(&mut cpu, 0xB113);
    assert_eq!(0x123, cpu.program_counter());
}

#[test]
#[allow(non_snake_case)]
fn op_BNNN_wraps_past_last_address() {
    let mut cpu = cpu();
    cpu.set_register(0, 0x02);
    exec(&mut cpu, 0xBFFF);
    assert_eq!(0x001, cpu.program_counter());
}

#[test]
#[allow(non_snake_case)]
fn op_CXNN_masks_random_byte() {
    let mut cpu = cpu();
    cpu.exec_opcode(0xC30F, &Keypad::new(), 0xAB).unwrap();
    assert_eq!(0x0B, cpu.register(3));
    cpu.exec_opcode(0xC300, &Keypad::new(), 0xFF).unwrap();
    assert_eq!(0x00, cpu.register(3));
}

#[test]
#[allow(non_snake_case)]
fn op_CXNN_from_generator_respects_mask() {
    let mut cpu = cpu_with_program(&[0xC3, 0x0F, 0xC4, 0x00]);
    cpu.set_register(4, 0x55);
    cpu.run_cycle(&Keypad::new()).unwrap();
    assert!(cpu.register(3) <= 0x0F);
    cpu.run_cycle(&Keypad::new()).unwrap();
    assert_eq!(0, cpu.register(4));
    assert_eq!(0x204, cpu.program_counter());
}

#[test]
#[allow(non_snake_case)]
fn op_DXYN_draws_sprite() {
    let mut cpu = cpu();
    cpu.set_register(3, 7);
    cpu.set_register(2, 8);
    cpu.set_index(0x000); // glyph "0": F0 90 90 90 F0
    exec(&mut cpu, 0xD325);
    assert_eq!(0x0, cpu.register(0xF));
    assert!(cpu.screen().is_pixel_set(7, 8));
    assert!(cpu.screen().is_pixel_set(10, 8));
    assert!(!cpu.screen().is_pixel_set(11, 8));
    assert!(!cpu.screen().is_pixel_set(8, 9));
    assert!(cpu.screen().is_pixel_set(10, 9));
    assert!(cpu.screen().is_dirty());

    exec(&mut cpu, 0xD321);
    assert_eq!(0x1, cpu.register(0xF));
    assert!(!cpu.screen().is_pixel_set(7, 8));
}

#[test]
#[allow(non_snake_case)]
fn op_EX9E_skips_if_key_pressed() {
    let mut cpu = cpu();
    cpu.set_register(4, 0xA);
    cpu.exec_opcode(0xE49E, &keys_with(0xA), 0).unwrap();
    assert_eq!(0x204, cpu.program_counter());
}

#[test]
#[allow(non_snake_case)]
fn op_EX9E_does_not_skip_if_other_key_pressed() {
    let mut cpu = cpu();
    cpu.set_register(4, 0xA);
    cpu.exec_opcode(0xE49E, &keys_with(0xB), 0).unwrap();
    assert_eq!(0x202, cpu.program_counter());
}

#[test]
#[allow(non_snake_case)]
fn op_EXA1_skips_if_key_not_pressed() {
    let mut cpu = cpu();
    cpu.set_register(4, 0xA);
    exec(&mut cpu, 0xE4A1);
    assert_eq!(0x204, cpu.program_counter());
}

#[test]
#[allow(non_snake_case)]
fn op_EXA1_does_not_skip_if_key_pressed() {
    let mut cpu = cpu();
    cpu.set_register(4, 0xA);
    cpu.exec_opcode(0xE4A1, &keys_with(0xA), 0).unwrap();
    assert_eq!(0x202, cpu.program_counter());
}

#[test]
#[allow(non_snake_case)]
fn op_FX07_sets_vx_to_delay() {
    let mut cpu = cpu();
    cpu.set_register(1, 0xA1);
    exec(&mut cpu, 0xF115);
    exec(&mut cpu, 0xF407);
    assert_eq!(0xA1, cpu.register(4));
}

#[test]
#[allow(non_snake_case)]
fn op_FX0A_sets_vx_to_key() {
    let mut cpu = cpu();
    cpu.exec_opcode(0xF40A, &keys_with(0x8), 0).unwrap();
    assert_eq!(0x0, cpu.register(4)); // Sanity check

    cpu.exec_opcode(0xF40A, &Keypad::new(), 0).unwrap();
    assert_eq!(0x08, cpu.register(4));
}

#[test]
#[allow(non_snake_case)]
fn op_FX0A_blocks_until_key_is_released() {
    let mut cpu = cpu();

    // Key is held, wait for release
    cpu.exec_opcode(0xF40A, &keys_with(0x8), 0).unwrap();
    assert_eq!(0x200, cpu.program_counter());
    assert_eq!(0x0, cpu.register(4));

    // Key is released, increment program counter
    cpu.exec_opcode(0xF40A, &Keypad::new(), 0).unwrap();
    assert_eq!(0x202, cpu.program_counter());
    assert_eq!(0x8, cpu.register(4));
}

#[test]
#[allow(non_snake_case)]
fn op_FX0A_blocks_when_no_key() {
    let mut cpu = cpu();
    exec(&mut cpu, 0xF40A);
    assert_eq!(0x200, cpu.program_counter());
    exec(&mut cpu, 0xF40A);
    assert_eq!(0x200, cpu.program_counter());
}

#[test]
#[allow(non_snake_case)]
fn op_FX0A_waits_while_key_held() {
    let mut cpu = cpu_with_program(&[0xF4, 0x0A]);
    for _ in 0..3 {
        cpu.run_cycle(&keys_with(0x3)).unwrap();
        assert_eq!(0x200, cpu.program_counter());
    }
    cpu.run_cycle(&Keypad::new()).unwrap();
    assert_eq!(0x202, cpu.program_counter());
    assert_eq!(0x3, cpu.register(4));
}

#[test]
#[allow(non_snake_case)]
fn op_FX15_sets_delay() {
    let mut cpu = cpu();
    cpu.set_register(4, 0xA2);
    exec(&mut cpu, 0xF415);
    assert_eq!(0xA2, cpu.delay_timer());
}

#[test]
#[allow(non_snake_case)]
fn op_FX18_sets_sound() {
    let mut cpu = cpu();
    cpu.set_register(4, 0xA3);
    exec(&mut cpu, 0xF418);
    assert_eq!(0xA3, cpu.sound_timer());
}

#[test]
#[allow(non_snake_case)]
fn op_FX1E_increments_index() {
    let mut cpu = cpu();
    cpu.set_index(0xA00);
    cpu.set_register(4, 0xFF);
    exec(&mut cpu, 0xF41E);
    assert_eq!(0xAFF, cpu.index());
}

#[test]
#[allow(non_snake_case)]
fn op_FX1E_wraps_index() {
    let mut cpu = cpu();
    cpu.set_index(0xFFF);
    cpu.set_register(4, 0x02);
    exec(&mut cpu, 0xF41E);
    assert_eq!(0x001, cpu.index());
    assert_eq!(0, cpu.register(CARRY_REGISTER));
}

#[test]
#[allow(non_snake_case)]
fn op_FX29_sets_index_to_sprite() {
    let mut cpu = cpu();
    cpu.set_register(4, 0xB);
    exec(&mut cpu, 0xF429);
    assert_eq!(55, cpu.index());
}

#[test]
#[allow(non_snake_case)]
fn op_FX33_writes_bcd() {
    let mut cpu = cpu();
    cpu.set_index(0x100);
    cpu.set_register(4, 213);
    exec(&mut cpu, 0xF433);
    assert_eq!(vec![2, 1, 3], cpu.memory().as_slice()[0x100..0x103]);
}

#[test]
#[allow(non_snake_case)]
fn op_FX55_dumps_registers() {
    let mut cpu = cpu();
    cpu.set_index(0x100);
    cpu.set_register(0, 0x10);
    cpu.set_register(1, 0x23);
    cpu.set_register(2, 0x99);
    exec(&mut cpu, 0xF155);
    assert_eq!(vec![0x10, 0x23, 0x00], cpu.memory().as_slice()[0x100..0x103]);
    assert_eq!(0x100, cpu.index());
}

#[test]
#[allow(non_snake_case)]
fn op_FX65_loads_registers() {
    let mut mmu = Chip8Mmu::new();
    mmu.write_u8(0x100, 7);
    mmu.write_u8(0x101, 8);
    mmu.write_u8(0x102, 9);
    let mut cpu = Cpu::new(mmu);
    cpu.set_index(0x100);

    exec(&mut cpu, 0xF165);

    assert_eq!(7, cpu.register(0));
    assert_eq!(8, cpu.register(1));
    assert_eq!(0, cpu.register(2));
}

#[test]
fn undefined_instructions_are_errors() {
    for opcode in [0x0123u16, 0x8148, 0x81FF, 0xE4FF, 0xF4FF] {
        let mut cpu = cpu();
        cpu.set_register(1, 0x42);
        assert_eq!(
            Err(CpuError::UndefinedInstruction { opcode, program_counter: 0x200 }),
            cpu.exec_opcode(opcode, &Keypad::new(), 0)
        );
        assert_eq!(0x200, cpu.program_counter());
        assert_eq!(0x42, cpu.register(1));
    }
}

#[test]
fn return_without_call_is_stack_underflow() {
    let mut cpu = cpu();
    assert_eq!(
        Err(CpuError::StackUnderflow { opcode: 0x00EE, program_counter: 0x200 }),
        cpu.exec_opcode(0x00EE, &Keypad::new(), 0)
    );
    assert_eq!(0x200, cpu.program_counter());
}

#[test]
fn seventeenth_call_is_stack_overflow() {
    let mut cpu = cpu();
    for depth in 1..=16 {
        exec(&mut cpu, 0x2300);
        assert_eq!(depth, cpu.call_stack().len());
    }
    assert_eq!(
        Err(CpuError::StackOverflow { opcode: 0x2300, program_counter: 0x300 }),
        cpu.exec_opcode(0x2300, &Keypad::new(), 0)
    );
    assert_eq!(16, cpu.call_stack().len());
    assert_eq!(0x300, cpu.program_counter());
}

#[test]
fn add_with_carry_scenario() {
    let mut cpu = cpu();
    cpu.set_register(2, 0xFF);
    cpu.set_register(3, 0x03);
    exec(&mut cpu, 0x8234);
    assert_eq!(0x02, cpu.register(2));
    assert_eq!(1, cpu.register(CARRY_REGISTER));
}

#[test]
fn subtract_with_borrow_scenario() {
    let mut cpu = cpu();
    cpu.set_register(2, 0x01);
    cpu.set_register(3, 0x02);
    exec(&mut cpu, 0x8235);
    assert_eq!(0xFF, cpu.register(2));
    assert_eq!(0, cpu.register(CARRY_REGISTER));
}

#[test]
fn delay_timer_counts_down_to_zero_and_stays() {
    let mut cpu = cpu();
    cpu.set_register(0, 60);
    exec(&mut cpu, 0xF015);
    assert_eq!(60, cpu.delay_timer());
    for _ in 0..59 {
        cpu.run_60hz_cycle();
        assert!(cpu.delay_timer() > 0);
    }
    cpu.run_60hz_cycle();
    assert_eq!(0, cpu.delay_timer());
    cpu.run_60hz_cycle();
    assert_eq!(0, cpu.delay_timer());
}

#[test]
fn sound_timer_gates_audio() {
    let mut cpu = cpu();
    assert_eq!(AudioCommand::Pause, cpu.run_60hz_cycle());
    cpu.set_register(0, 2);
    exec(&mut cpu, 0xF018);
    assert_eq!(AudioCommand::Play, cpu.run_60hz_cycle());
    assert_eq!(1, cpu.sound_timer());
    assert_eq!(AudioCommand::Play, cpu.run_60hz_cycle());
    assert_eq!(0, cpu.sound_timer());
    assert_eq!(AudioCommand::Pause, cpu.run_60hz_cycle());
    assert_eq!(0, cpu.sound_timer());
}

#[test]
fn key_wait_press_then_release() {
    let mut cpu = cpu_with_program(&[0xF5, 0x0A]);
    cpu.set_register(5, 0x77);

    cpu.run_cycle(&keys_with(8)).unwrap();
    assert_eq!(0x200, cpu.program_counter());
    assert_eq!(0x77, cpu.register(5));

    cpu.run_cycle(&Keypad::new()).unwrap();
    assert_eq!(8, cpu.register(5));
    assert_eq!(0x202, cpu.program_counter());
}

#[test]
fn load_then_add_end_to_end() {
    let mut cpu = cpu_with_program(&[0x6A, 0x05, 0x7A, 0x03]);
    cpu.run_cycle(&Keypad::new()).unwrap();
    cpu.run_cycle(&Keypad::new()).unwrap();
    assert_eq!(8, cpu.register(10));
    assert_eq!(0x204, cpu.program_counter());
}

#[test]
fn mark_screen_clean_clears_dirty_flag() {
    let mut cpu = cpu();
    exec(&mut cpu, 0x00E0);
    assert!(cpu.screen().is_dirty());
    cpu.mark_screen_clean();
    assert!(!cpu.screen().is_dirty());
}
