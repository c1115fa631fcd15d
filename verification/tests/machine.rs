use wisp::bus::{Address, Bus, BusDevice, Native};
use wisp::cpu::{Cpu, Register};
use wisp::gpu::{draw_char, draw_text, put_pixel, FRAMEBUFFER_BYTES};
use wisp::machine::{Firmware, WispMachine, WispMachineError};
use wisp::ram::Ram;
use wisp::rom::Rom;
use wisp::wordcpu::{self, AddressRegister, Word, WordMemory, WordType};

#[test]
fn bus_reads_back_a_written_word() {
    let mut bus = Bus::new();
    bus.install(0x100..0x200, BusDevice::Ram(Ram::new(0x100).ram_device)).unwrap();
    bus.write_word(Address(0x110), Native(0x1122334455667788));
    assert_eq!(bus.read_word(Address(0x110)), Native(0x1122334455667788));
    assert_eq!(bus.read_byte(Address(0x110)), 0x88);
    bus.write_byte(Address(0x120), 7);
    assert_eq!(bus.read_byte(Address(0x120)), 7);
}

#[test]
fn bus_ignores_writes_to_rom_and_unmapped_addresses() {
    let mut bus = Bus::new();
    bus.install(0..16, BusDevice::Rom(Rom::new(vec![1, 2, 3, 4, 5, 6, 7, 8, 9, 10, 11, 12, 13, 14, 15, 16])))
        .unwrap();
    bus.write_word(Address(0), Native(0));
    assert_eq!(bus.read_word(Address(0)), Native(0x0807060504030201));
    bus.write_word(Address(0x1000), Native(5));
    assert_eq!(bus.read_word(Address(0x1000)), Native(0));
}

#[test]
fn ram_configuration_block_describes_its_size() {
    let ram = Ram::new(0x400);
    let mut expected = vec![0xaa, 0x55, b't', b'o', b'r', b'd', b'e', b'k', 0, 0, 0, 0, 0, 0, 0, 0];
    expected.extend(0x400u64.to_le_bytes());
    expected.extend(vec![0; 8]);
    assert_eq!(ram.configuration_device.bytes, expected);
    assert_eq!(ram.ram_device.bytes.len(), 0x400);
}

#[test]
fn machine_maps_the_firmware_at_the_top_of_memory() {
    let machine = WispMachine::new(".org 0xffffffffffffff00\nNOP\n").unwrap();
    assert_eq!(machine.bus.read_byte(Address(0xffffffffffffff00)), 1);
    assert_eq!(machine.bus.read_byte(Address(0x00ffffff00000000)), 0xaa);
}

#[test]
fn machine_refuses_a_firmware_that_does_not_assemble() {
    let r = WispMachine::new(".org 0\nFROB\n");
    assert!(matches!(r, Err(WispMachineError::SetupError(_))));
}

#[test]
fn machine_reset_starts_at_the_reset_vector() {
    let mut machine = WispMachine::new(".org 0xffffffffffffffe0\nHALT\n").unwrap();
    machine.reset();
    assert!(machine.try_step());
    machine.interrupt(Firmware::KEYBOARD_INTERRUPT as u64);
}

#[test]
fn cpu_reset_sets_pc_nil_and_t() {
    let mut cpu = Cpu::default();
    cpu.reset();
    assert_eq!(cpu.reg(Register(Cpu::PC)), Native(0xffffffffffffffe0));
    assert_eq!(cpu.reg(Register(Cpu::T)), Native(1));
    assert_eq!(cpu.reg(Register(Cpu::NIL)), Native(0));
}

#[test]
fn word_survives_its_raw_bits() {
    let w = Word::new(WordType::Cons, 0x1234);
    let bits: u64 = w.into();
    assert_eq!(bits, 0x0300_0000_0000_1234);
    assert_eq!(Word::try_from(bits), Ok(w));
    assert_eq!(Word::try_from(0xff00_0000_0000_0000u64), Err(0xff));
}

#[test]
fn word_cpu_instruction_words() {
    let (lo, hi) = wordcpu::Instruction::JumpAdr { target: AddressRegister(3) }.encode();
    assert_eq!((lo, hi), (0x1302, 0));
    let (lo, hi) = wordcpu::Instruction::StoreOffset {
        base: AddressRegister(1),
        offset: -1,
        value: wordcpu::Register(2),
    }
    .encode();
    assert_eq!((lo, hi), (0x021130, u64::MAX));
}

#[test]
fn word_cpu_traps_on_type_errors() {
    let mut cpu = wordcpu::Cpu::default();
    let mut memory = WordMemory::new(0x2000);
    memory.write_word(wordcpu::MemoryLayout::TRAP_VECTOR, 0x1800);
    cpu.pc = 0x1000;
    let (lo, hi) = wordcpu::Instruction::Car { dst: wordcpu::Register(1), src: wordcpu::Register(2) }.encode();
    memory.write_word(0x1000, lo);
    memory.write_word(0x1001, hi);
    cpu.full_step(&mut memory);
    assert_eq!(cpu.pc, 0x1800);
    assert_eq!(cpu.address[0], 0x1000);
    assert_eq!(cpu.registers[0], Word::new(WordType::Fixnum, 0));
}

#[test]
fn put_pixel_writes_three_bytes_on_screen_only() {
    let mut fb = vec![0u8; FRAMEBUFFER_BYTES];
    put_pixel(&mut fb, 2, 1, 10, 20, 30);
    assert_eq!(&fb[(720 + 2) * 3..(720 + 2) * 3 + 3], &[10, 20, 30]);
    put_pixel(&mut fb, 720, 0, 1, 1, 1);
    put_pixel(&mut fb, 0, 400, 1, 1, 1);
    assert_eq!(fb.iter().filter(|b| **b != 0).count(), 3);
}

#[test]
fn draw_text_draws_each_glyph_eight_pixels_apart() {
    let mut font = vec![0u8; 4096];
    font[65 * 16] = 0x80;
    font[66 * 16 + 15] = 0x01;
    let mut fb = vec![0u8; FRAMEBUFFER_BYTES];
    draw_text(&mut fb, &font, 4, 2, "AB", 9, 8, 7);
    assert_eq!(&fb[(2 * 720 + 4) * 3..(2 * 720 + 4) * 3 + 3], &[9, 8, 7]);
    assert_eq!(&fb[(17 * 720 + 19) * 3..(17 * 720 + 19) * 3 + 3], &[9, 8, 7]);
    assert_eq!(fb.iter().filter(|b| **b != 0).count(), 6);
    let mut fb2 = vec![0u8; FRAMEBUFFER_BYTES];
    draw_char(&mut fb2, &font, 4, 2, 'A', 9, 8, 7);
    assert_eq!(fb2.iter().filter(|b| **b != 0).count(), 3);
}

#[test]
fn machine_setup_error_names_the_label_as_text() {
    match WispMachine::new(".org 0\nJUMP 'nowhere\n") {
        Err(WispMachineError::SetupError(text)) => {
            assert_eq!(text, "AssemblerError(UnresolvedReference(\"nowhere\"))");
        },
        Ok(_) => panic!("a missing label was accepted"),
    }
}

#[test]
fn machine_setup_error_shows_unknown_instructions_as_text() {
    match WispMachine::new(".org 0\nFROB\n") {
        Err(WispMachineError::SetupError(text)) => {
            assert_eq!(text, "AssemblerError(ParserError(UnknownInstruction { instruction: \"FROB\" }))");
        },
        Ok(_) => panic!("an unknown instruction was accepted"),
    }
}
