use wisp::wordcpu::{AddressRegister, Cpu, Instruction, MemoryLayout, Register, Word, WordMemory, WordType};

fn test_memory() -> WordMemory {
    let mut memory = WordMemory::new(0x4000);
    memory.write_word(0, Word::new(WordType::Symbol, 0).into());
    memory.write_word(1, Word::new(WordType::Symbol, 1).into());
    memory
}

fn load_instructions(memory: &mut WordMemory, start: usize, instructions: Vec<Instruction>) {
    let mut pos = start as u64;
    for instr in instructions {
        let (lo, hi) = instr.encode();
        memory.write_word(pos, lo);
        pos += 1;
        memory.write_word(pos, hi);
        pos += 1;
    }
}

#[test]
fn cpu_test_halt() -> Result<(), String> {
    let mut cpu = Cpu::default();
    let mut memory = test_memory();
    cpu.pc = 0x1000;
    load_instructions(&mut memory, cpu.pc as usize, vec![Instruction::Halt]);
    cpu.full_step(&mut memory);
    assert_eq!(cpu.pc, 0x1000);
    assert!(cpu.halted);
    Ok(())
}

#[test]
fn cpu_test_nop() -> Result<(), String> {
    let mut cpu = Cpu::default();
    let mut memory = test_memory();
    cpu.pc = 0x1000;
    load_instructions(&mut memory, cpu.pc as usize, vec![Instruction::Nop]);
    cpu.full_step(&mut memory);
    assert_eq!(cpu.pc, 0x1002);
    Ok(())
}

#[test]
fn cpu_test_multiple_nop() -> Result<(), String> {
    let mut cpu = Cpu::default();
    let mut memory = test_memory();
    cpu.pc = 0x1000;
    load_instructions(
        &mut memory,
        cpu.pc as usize,
        vec![
            Instruction::Nop,
            Instruction::Nop,
            Instruction::Nop,
            Instruction::Nop,
            Instruction::Nop,
            Instruction::Nop,
            Instruction::Nop,
            Instruction::Nop,
            Instruction::Halt,
        ],
    );
    while !cpu.halted {
        cpu.full_step(&mut memory);
    }
    assert_eq!(cpu.pc, 0x1010);
    assert!(cpu.halted);
    Ok(())
}

#[test]
fn test_jump_adr() -> Result<(), String> {
    let mut cpu = Cpu::default();
    let mut memory = test_memory();
    cpu.pc = 0x1000;
    cpu.address[0] = 0x2000;
    load_instructions(&mut memory, cpu.pc as usize, vec![Instruction::JumpAdr { target: AddressRegister(0) }]);
    cpu.full_step(&mut memory);
    assert_eq!(cpu.pc, 0x2000);
    Ok(())
}

#[test]
fn test_cons_builds_cell() -> Result<(), String> {
    let mut cpu = Cpu::default();
    let mut memory = test_memory();

    cpu.pc = 0x1000;
    cpu.sp = 0x200;

    let cons_hook = 0x2000;
    let cons_cell = 0x3000;

    memory.write_word(MemoryLayout::ALLOC_CONS_VECTOR, cons_hook);

    load_instructions(
        &mut memory,
        cpu.pc as usize,
        vec![
            Instruction::LoadFixnum { dst: Register(1), val: 42 },
            Instruction::LoadFixnum { dst: Register(2), val: 99 },
            // R0 <- Cons(R1, R2)
            Instruction::Cons { car: Register(1), cdr: Register(2) },
            Instruction::Halt,
        ],
    );

    // The allocation routine: places the cell at a fixed address.
    load_instructions(
        &mut memory,
        cons_hook as usize,
        vec![
            Instruction::LoadAddress { dst: AddressRegister(0), address: cons_cell },
            Instruction::Store { address: AddressRegister(0), value: Register(1) },
            Instruction::StoreOffset { base: AddressRegister(0), offset: 1, value: Register(2) },
            Instruction::PopA { dst: AddressRegister(1) },
            Instruction::PopA { dst: AddressRegister(1) },
            Instruction::PopA { dst: AddressRegister(1) },
            Instruction::PopA { dst: AddressRegister(1) },
            Instruction::LoadCons { dst: Register(0), address: AddressRegister(0) },
            Instruction::Return,
        ],
    );

    while !cpu.halted {
        cpu.full_step(&mut memory);
    }

    let result = cpu.registers[0];

    assert_eq!(result, Word::new(WordType::Cons, cons_cell));

    assert_eq!(
        Word::try_from(memory.read_word(cons_cell)).expect("couldn't parse word"),
        Word::new(WordType::Fixnum, 42)
    );

    assert_eq!(
        Word::try_from(memory.read_word(cons_cell + 1)).expect("couldn't parse word"),
        Word::new(WordType::Fixnum, 99).into()
    );

    assert!(cpu.halted);

    Ok(())
}

#[test]
fn untaken_conditional_jumps_continue_at_the_next_instruction() {
    let mut cpu = Cpu::default();
    let mut memory = test_memory();
    cpu.pc = 0x1000;
    cpu.sp = 0x200;
    cpu.address[0] = 0x2000;
    cpu.registers[1] = Word::new(WordType::Symbol, 0);
    cpu.registers[2] = Word::new(WordType::Symbol, 1);
    load_instructions(
        &mut memory,
        0x1000,
        vec![
            Instruction::JumpIfAdr { condition: Register(1), target: AddressRegister(0) },
            Instruction::JumpIfNotAdr { condition: Register(2), target: AddressRegister(0) },
            Instruction::JumpIfAdr { condition: Register(2), target: AddressRegister(0) },
        ],
    );
    cpu.full_step(&mut memory);
    assert_eq!(cpu.pc, 0x1002);
    cpu.full_step(&mut memory);
    assert_eq!(cpu.pc, 0x1004);
    cpu.full_step(&mut memory);
    assert_eq!(cpu.pc, 0x2000);
}

#[test]
fn lte_holds_when_the_first_fixnum_is_at_most_the_second() {
    let mut cpu = Cpu::default();
    let mut memory = test_memory();
    cpu.pc = 0x1000;
    cpu.registers[1] = Word::new(WordType::Fixnum, 3);
    cpu.registers[2] = Word::new(WordType::Fixnum, 5);
    load_instructions(
        &mut memory,
        0x1000,
        vec![
            Instruction::Lte { dst: Register(3), op1: Register(1), op2: Register(2) },
            Instruction::Lte { dst: Register(4), op1: Register(2), op2: Register(1) },
            Instruction::Lte { dst: Register(5), op1: Register(1), op2: Register(1) },
        ],
    );
    cpu.full_step(&mut memory);
    cpu.full_step(&mut memory);
    cpu.full_step(&mut memory);
    assert_eq!(cpu.registers[3], Word::new(WordType::Symbol, 1));
    assert_eq!(cpu.registers[4], Word::new(WordType::Symbol, 0));
    assert_eq!(cpu.registers[5], Word::new(WordType::Symbol, 1));
}
