use wisp::bus::{Address, Bus, BusDevice, Native, Offset};
use wisp::cpu::{Cpu, Instruction, LispWord, RValue, Register};
use wisp::ram::Ram;

fn load_instructions(bus: &mut Bus, start: Address, instructions: Vec<Instruction>) {
    let mut pos = 0;
    for instr in instructions {
        let (lo, hi) = instr.encode().unwrap();
        bus.write_word(start + Offset(pos * Cpu::WORD_SIZE as i64), Native(lo));
        pos += 1;
        bus.write_word(start + Offset(pos * Cpu::WORD_SIZE as i64), Native(hi));
        pos += 1;
    }
}

fn test_setup() -> Bus {
    let memory = Ram::new(0x10000);
    let mut bus = Bus::new();
    bus.install(0x0..0x10000, BusDevice::Ram(memory.ram_device)).unwrap();
    bus
}

#[test]
fn mod_test_halt() -> Result<(), String> {
    let mut cpu = Cpu::default();
    let mut test_bus = test_setup();
    cpu.set_reg(Register(Cpu::PC), Native(0x1000));
    load_instructions(&mut test_bus, Address::from(cpu.reg(Register(Cpu::PC))), vec![Instruction::Halt]);
    cpu.full_step(&mut test_bus);
    assert_eq!(cpu.reg(Register(Cpu::PC)), Native(0x1010));
    assert!(cpu.halted);
    Ok(())
}

#[test]
fn mod_test_nop() -> Result<(), String> {
    let mut cpu = Cpu::default();
    let mut test_bus = test_setup();
    cpu.set_reg(Register(Cpu::PC), Native(0x1000));
    load_instructions(&mut test_bus, Address::from(cpu.reg(Register(Cpu::PC))), vec![Instruction::Nop]);
    cpu.full_step(&mut test_bus);
    assert_eq!(cpu.reg(Register(Cpu::PC)), Native(0x1010));
    assert!(!cpu.halted);
    Ok(())
}

#[test]
fn mod_test_multiple_nop() -> Result<(), String> {
    let mut cpu = Cpu::default();
    let mut test_bus = test_setup();
    cpu.set_reg(Register(Cpu::PC), Native(0x1000));
    load_instructions(
        &mut test_bus,
        Address::from(cpu.reg(Register(Cpu::PC))),
        vec![
            Instruction::Nop,
            Instruction::Nop,
            Instruction::Nop,
            Instruction::Nop,
            Instruction::Nop,
            Instruction::Nop,
            Instruction::Nop,
            Instruction::Nop,
            Instruction::Nop,
            Instruction::Halt,
        ],
    );
    while !cpu.halted {
        cpu.full_step(&mut test_bus);
    }
    assert_eq!(cpu.reg(Register(Cpu::PC)), Native(0x10a0));
    Ok(())
}

#[test]
fn return_resumes_after_the_call() {
    let mut cpu = Cpu::default();
    let mut bus = test_setup();
    cpu.set_reg(Register(Cpu::PC), Native(0x1000));
    cpu.set_reg(Register(Cpu::SP), Native(0x8000));
    cpu.set_reg(Register(Cpu::FP), Native(0x7000));
    load_instructions(
        &mut bus,
        Address(0x1000),
        vec![Instruction::Call { target: RValue::Literal(Native(0x2000)) }],
    );
    load_instructions(&mut bus, Address(0x2000), vec![Instruction::Return]);
    cpu.full_step(&mut bus);
    assert_eq!(cpu.reg(Register(Cpu::PC)), Native(0x2000));
    assert_eq!(cpu.reg(Register(Cpu::FP)), Native(0x8000));
    assert_eq!(bus.read_word(Address(0x8000 - 8)), Native(0x7000));
    assert_eq!(bus.read_word(Address(0x8000 - 16)), Native(0x1010));
    cpu.full_step(&mut bus);
    assert_eq!(cpu.reg(Register(Cpu::PC)), Native(0x1010));
    assert_eq!(cpu.reg(Register(Cpu::SP)), Native(0x8000));
    assert_eq!(cpu.reg(Register(Cpu::FP)), Native(0x7000));
}

#[test]
fn car_reads_what_set_car_stored() {
    let mut cpu = Cpu::default();
    let mut bus = test_setup();
    bus.write_word(Address(0x3008), Native(0x55));
    cpu.set_reg(Register(Cpu::PC), Native(0x1000));
    cpu.set_reg(Register(1), Native(LispWord::cons(0x3000).0));
    cpu.set_reg(Register(2), Native(77));
    load_instructions(
        &mut bus,
        Address(0x1000),
        vec![
            Instruction::SetCar { dst: Register(1), src: Register(2) },
            Instruction::Car { dst: Register(3), src: Register(1) },
            Instruction::Cdr { dst: Register(4), src: Register(1) },
        ],
    );
    cpu.full_step(&mut bus);
    cpu.full_step(&mut bus);
    cpu.full_step(&mut bus);
    assert_eq!(cpu.reg(Register(3)), Native(77));
    assert_eq!(cpu.reg(Register(4)), Native(0x55));
    assert_eq!(cpu.reg(Register(Cpu::PC)), Native(0x1030));
}

#[test]
fn interrupt_return_resumes_after_the_interrupt() {
    let mut cpu = Cpu::default();
    let mut bus = test_setup();
    cpu.set_reg(Register(Cpu::PC), Native(0x1000));
    cpu.set_reg(Register(Cpu::SP), Native(0x8000));
    cpu.set_reg(Register(Cpu::VBR), Native(0x4000));
    bus.write_word(Address(0x4000 + 2 * 8), Native(0x2000));
    load_instructions(&mut bus, Address(0x1000), vec![Instruction::Int(2)]);
    load_instructions(&mut bus, Address(0x2000), vec![Instruction::IReturn]);
    cpu.full_step(&mut bus);
    assert_eq!(cpu.reg(Register(Cpu::PC)), Native(0x2000));
    assert_eq!(cpu.reg(Register(Cpu::SP)), Native(0x8000 - 24));
    assert_eq!(bus.read_word(Address(0x8000 - 24)), Native(0x1010));
    assert_eq!(bus.read_word(Address(0x8000 - 16)), Native(2));
    cpu.full_step(&mut bus);
    assert_eq!(cpu.reg(Register(Cpu::PC)), Native(0x1010));
    assert_eq!(cpu.reg(Register(Cpu::SP)), Native(0x8000));
}

#[test]
fn bus_words_are_little_endian_and_survive_other_writes() {
    let mut bus = test_setup();
    bus.write_word(Address(0x100), Native(0x0807060504030201));
    bus.write_word(Address(0x108), Native(0xffff));
    bus.write_byte(Address(0xff), 0xaa);
    for i in 0..8u64 {
        assert_eq!(bus.read_byte(Address(0x100 + i)), (i + 1) as u8);
    }
    assert_eq!(bus.read_word(Address(0x100)), Native(0x0807060504030201));
}
