use vstd::prelude::*;

use crate::bus::{
    bytes_read_word, section_covering, word_at, Address, Bus, BusDevice, BusError, Device,
    DeviceState, MappingState, Native, SectionState,
};
use crate::cpu::assembler::{assemble, assembles_to, AssemblerError, Section};
use crate::cpu::assembler::text::{assembler_error_text_of, AssemblerErrorText};
use crate::cpu::state::{full_step, step_faults, after_pending, CpuState};
use crate::cpu::{self, Cpu, InterruptTableOffset};
use crate::ram::{configuration_block, Ram};

verus! {

/// The machine's boot image: assembled sections, readable where the bus maps it.
#[derive(Clone)]
pub struct Firmware {
    base: usize,
    rom: Vec<Section>,
}

/// The contract view of one assembled section.
pub open spec fn section_state(s: Section) -> SectionState {
    SectionState { base: s.base as int, data: s.data@ }
}

/// Why the firmware could not be built.
#[derive(Debug)]
pub enum FirmwareError<'a> {
    AssemblerError(AssemblerError<'a>),
}

impl<'a> From<AssemblerError<'a>> for FirmwareError<'a> {
    fn from(value: AssemblerError<'a>) -> (r: Self) {
        FirmwareError::AssemblerError(value)
    }
}

impl<'a> vstd::std_specs::convert::FromSpecImpl<AssemblerError<'a>> for FirmwareError<'a> {
    open spec fn obeys_from_spec() -> bool {
        true
    }

    open spec fn from_spec(v: AssemblerError<'a>) -> FirmwareError<'a> {
        FirmwareError::AssemblerError(v)
    }
}

impl Firmware {
    /// The interrupt raised when a key is pressed: the first after the reserved ones.
    pub const KEYBOARD_INTERRUPT: usize = 0xf1;
    /// Where video memory is mapped.
    pub const VRAM_START: u64 = 0x00ffffff000b8000;
    pub const VRAM_END: u64 = 0x00ffffff000c0000;
    /// Where keyboard memory is mapped.
    pub const KEYBOARD_START: u64 = 0x00ffffff000c0000;
    pub const KEYBOARD_END: u64 = 0x00ffffff000d0000;

    pub closed spec fn base(&self) -> usize {
        self.base
    }

    /// Assembles the boot program `bios` into a firmware image, based at 0.
    pub fn make_firmware<'a>(bios: &'a str) -> (r: Result<Firmware, FirmwareError<'a>>)
        ensures
            match r {
                Ok(f) => f.base() == 0 && exists|v: Vec<Section>|
                    assembles_to(bios, Ok(v)) && f.sections() == v@.map_values(|s: Section| section_state(s)),
                Err(FirmwareError::AssemblerError(e)) => assembles_to(bios, Err(e)),
            },
    {
        let rom = match assemble(bios) {
            Ok(rom) => rom,
            Err(e) => return Err(FirmwareError::from(e)),
        };
        Ok(Firmware { base: 0, rom })
    }

    /// A copy of the image, at the same base.
    fn duplicate(&self) -> (r: Firmware)
        ensures
            r.base == self.base,
            r.sections() == self.sections(),
    {
        let mut rom: Vec<Section> = Vec::new();
        let mut i: usize = 0;
        while i < self.rom.len()
            invariant
                0 <= i <= self.rom@.len(),
                rom@.len() == i,
                forall|k: int| 0 <= k < i ==> section_state(#[trigger] rom@[k]) == section_state(self.rom@[k]),
            decreases self.rom@.len() - i,
        {
            let s = &self.rom[i];
            let data = s.data.clone();
            assert(data@ =~= s.data@);
            rom.push(Section { data, base: s.base });
            i = i + 1;
        }
        let r = Firmware { base: self.base, rom };
        assert(r.sections() =~= self.sections());
        r
    }

    pub closed spec fn sections(&self) -> Seq<SectionState> {
        self.rom@.map_values(|s: Section| section_state(s))
    }

    /// The first section holding absolute image address `a`.
    fn find_section(&self, a: usize) -> (r: Option<usize>)
        ensures
            match r {
                Some(i) => section_covering(self.sections(), a as int, 0) == Some(i as int)
                    && i < self.rom@.len() && self.rom@[i as int].base <= a
                    && a < self.rom@[i as int].base + self.rom@[i as int].data@.len(),
                None => section_covering(self.sections(), a as int, 0) is None,
            },
    {
        let mut i: usize = 0;
        while i < self.rom.len()
            invariant
                0 <= i <= self.rom.len(),
                self.sections().len() == self.rom@.len(),
                section_covering(self.sections(), a as int, 0) == section_covering(
                    self.sections(),
                    a as int,
                    i as int,
                ),
            decreases self.rom.len() - i,
        {
            let section = &self.rom[i];
            assert(self.sections()[i as int] == section_state(*section));
            if section.base <= a && a - section.base < section.data.len() {
                return Some(i);
            }
            i = i + 1;
        }
        None
    }

    pub(crate) fn byte_in_bounds(&self, a: u64) -> (r: bool)
        ensures
            r == self.state().byte_in_bounds(a),
    {
        a <= (usize::MAX - self.base) as u64
    }

    pub(crate) fn word_in_bounds(&self, a: u64) -> (r: bool)
        ensures
            r == self.state().word_in_bounds(a),
    {
        if a > (usize::MAX - self.base) as u64 {
            return false;
        }
        let address = a as usize + self.base;
        match self.find_section(address) {
            Some(i) => {
                assert(self.sections()[i as int] == section_state(self.rom@[i as int]));
                let len = self.rom[i].data.len();
                address - self.rom[i].base <= len && 8 <= len - (address - self.rom[i].base)
            },
            None => true,
        }
    }
}

impl Device for Firmware {
    closed spec fn state(&self) -> DeviceState {
        DeviceState::Firmware { base: self.base as int, sections: self.sections() }
    }

    fn set_location(&mut self, base_address: Address) {
        self.base = base_address.0 as usize;
    }

    fn read_byte(&self, address: Address) -> (r: u8) {
        let address = address.0 as usize + self.base;
        match self.find_section(address) {
            Some(i) => {
                let section = &self.rom[i];
                assert(self.sections()[i as int] == section_state(*section));
                section.data[address - section.base]
            },
            None => 0,
        }
    }

    fn read_word(&self, address: Address) -> (r: Native) {
        let address = address.0 as usize + self.base;
        match self.find_section(address) {
            Some(i) => {
                let section = &self.rom[i];
                assert(self.sections()[i as int] == section_state(*section));
                Native(bytes_read_word(&section.data, address - section.base))
            },
            None => Native(0),
        }
    }

    // Firmware is read-only.
    fn write_byte(&mut self, _address: Address, _data: u8) {
    }

    fn write_word(&mut self, _address: Address, _data: Native) {
    }
}

/// The devices of the machine, in the order the bus tries them: main memory, its
/// configuration block, video memory, keyboard memory, and the firmware twice (below
/// the top of the address space, and at the reset vector).
pub open spec fn machine_mappings(firmware: Seq<SectionState>) -> Seq<MappingState> {
    seq![
        MappingState { start: 0, end: 0xffffffff, device: DeviceState::Ram { bytes: Seq::new(2097152nat, |i: int| 0u8) } },
        MappingState {
            start: 0x00ffffff00000000,
            end: 0x00ffffff00001000,
            device: DeviceState::Rom { bytes: configuration_block(2097152usize) },
        },
        MappingState {
            start: Firmware::VRAM_START,
            end: Firmware::VRAM_END,
            device: DeviceState::Ram { bytes: Seq::new(32768nat, |i: int| 0u8) },
        },
        MappingState {
            start: Firmware::KEYBOARD_START,
            end: Firmware::KEYBOARD_END,
            device: DeviceState::Ram { bytes: Seq::new(2048nat, |i: int| 0u8) },
        },
        MappingState {
            start: 0x00fffffffff00000,
            end: 0x00ffffffffffff00,
            device: DeviceState::Firmware { base: (0x00fffffffff00000u64 as usize) as int, sections: firmware },
        },
        MappingState {
            start: 0xffffffffffffff00,
            end: 0xffffffffffffffff,
            device: DeviceState::Firmware { base: (0xffffffffffffff00u64 as usize) as int, sections: firmware },
        },
    ]
}

/// The processor and the bus it runs on.
pub struct WispMachine {
    cpu: Cpu,
    pub bus: Bus,
}

/// Why a machine could not be built.
#[derive(Debug)]
pub enum WispMachineError {
    SetupError(String),
}

/// A firmware error with its names as text.
#[derive(Debug)]
pub enum FirmwareErrorText {
    AssemblerError(AssemblerErrorText),
}

/// `e` with its names decoded as text.
pub fn firmware_error_text(e: &FirmwareError) -> (r: FirmwareErrorText)
    ensures
        match *e {
            FirmwareError::AssemblerError(a) => r matches FirmwareErrorText::AssemblerError(t)
                && assembler_error_text_of(a, t),
        },
{
    match e {
        FirmwareError::AssemblerError(a) => FirmwareErrorText::AssemblerError(
            crate::cpu::assembler::text::assembler_error_text(a),
        ),
    }
}

/// The debug text of a firmware error.
#[verifier::external_body]
fn firmware_error_debug(e: &FirmwareErrorText) -> String {
    format!("{:?}", e)
}

/// The debug text of a bus error.
#[verifier::external_body]
fn bus_error_text(e: &BusError) -> String {
    format!("{:?}", e)
}

impl WispMachine {
    /// The processor's state.
    pub closed spec fn cpu_state(&self) -> CpuState {
        self.cpu@
    }

    /// The devices on the bus.
    pub closed spec fn bus_state(&self) -> Seq<MappingState> {
        self.bus@
    }

    /// Puts the processor in its power-on state; memory is left as it is.
    pub fn reset(&mut self)
        ensures
            final(self).bus_state() == old(self).bus_state(),
            final(self).cpu_state() == (CpuState {
                regs: old(self).cpu_state().regs.update(cpu::state::PC as int, cpu::MemoryLayout::RESET_VECTOR).update(
                    cpu::state::T as int,
                    1,
                ).update(cpu::state::NIL as int, 0),
                pending_interrupt: None,
                halted: false,
                interrupts_disabled: true,
            }),
    {
        self.cpu.reset();
    }

    /// Runs one instruction, entering a pending interrupt first and handling a trap.
    pub fn step(&mut self)
        requires
            !step_faults(old(self).cpu_state(), old(self).bus_state()),
        ensures
            (final(self).cpu_state(), final(self).bus_state()) == full_step(old(self).cpu_state(), old(self).bus_state()),
    {
        self.cpu.full_step(&mut self.bus);
    }

    /// [`WispMachine::step`] for any state; false when the instruction to run is one the
    /// machine cannot carry out, which is then not run.
    pub fn try_step(&mut self) -> (r: bool)
        ensures
            r == !step_faults(old(self).cpu_state(), old(self).bus_state()),
            r ==> (final(self).cpu_state(), final(self).bus_state()) == full_step(old(self).cpu_state(), old(self).bus_state()),
            !r ==> (final(self).cpu_state(), final(self).bus_state()) == after_pending(old(self).cpu_state(), old(self).bus_state()),
    {
        self.cpu.try_full_step(&mut self.bus)
    }

    /// Builds the machine with the firmware assembled from `bios`.
    #[verifier::rlimit(50)]
    pub fn new(bios: &str) -> (r: Result<Self, WispMachineError>)
        ensures
            match r {
                Ok(m) => {
                    &&& m.cpu_state().regs == Seq::new(256, |i: int| 0u64)
                    &&& m.cpu_state().pending_interrupt is None
                    &&& !m.cpu_state().halted
                    &&& !m.cpu_state().interrupts_disabled
                    &&& exists|v: Vec<Section>|
                        assembles_to(bios, Ok(v)) && m.bus_state() == machine_mappings(
                            v@.map_values(|s: Section| section_state(s)),
                        )
                },
                Err(_) => exists|e: AssemblerError| assembles_to(bios, Err(e)),
            },
    {
        let mut bus = Bus::new();
        let cpu = Cpu::default();
        let ram = Ram::new(2 << 20);
        let vram = Ram::new(2 << 14);
        let kbram = Ram::new(2 << 10);

        let firmware = match Firmware::make_firmware(bios) {
            Ok(f) => f,
            Err(x) => return Err(WispMachineError::SetupError(firmware_error_debug(&firmware_error_text(&x)))),
        };
        let ghost fw = firmware.sections();

        match bus.install(0x00000000..0xffffffff, BusDevice::Ram(ram.ram_device)) {
            Ok(()) => {},
            Err(x) => return Err(WispMachineError::SetupError(bus_error_text(&x))),
        }
        match bus.install(0x00ffffff00000000..0x00ffffff00001000, BusDevice::Rom(ram.configuration_device)) {
            Ok(()) => {},
            Err(x) => return Err(WispMachineError::SetupError(bus_error_text(&x))),
        }
        match bus.install(Firmware::VRAM_START..Firmware::VRAM_END, BusDevice::Ram(vram.ram_device)) {
            Ok(()) => {},
            Err(x) => return Err(WispMachineError::SetupError(bus_error_text(&x))),
        }
        match bus.install(Firmware::KEYBOARD_START..Firmware::KEYBOARD_END, BusDevice::Ram(kbram.ram_device)) {
            Ok(()) => {},
            Err(x) => return Err(WispMachineError::SetupError(bus_error_text(&x))),
        }
        let copy = firmware.duplicate();
        match bus.install(0x00fffffffff00000..0x00ffffffffffff00, BusDevice::Firmware(copy)) {
            Ok(()) => {},
            Err(x) => return Err(WispMachineError::SetupError(bus_error_text(&x))),
        }
        match bus.install(0xffffffffffffff00..0xffffffffffffffff, BusDevice::Firmware(firmware)) {
            Ok(()) => {},
            Err(x) => return Err(WispMachineError::SetupError(bus_error_text(&x))),
        }
        proof {
            let m = machine_mappings(fw);
            assert((2usize << 20usize) == 2097152usize) by (bit_vector);
            assert((2usize << 14usize) == 32768usize) by (bit_vector);
            assert((2usize << 10usize) == 2048usize) by (bit_vector);
            assert(bus@[0] == m[0]);
            assert(bus@[1] == m[1]);
            assert(bus@[2] == m[2]);
            assert(bus@[3] == m[3]);
            assert(bus@[4] == m[4]);
            assert(bus@[5] == m[5]);
            assert(bus@ =~= m);
        }
        Ok(WispMachine { cpu, bus })
    }

    /// Raises interrupt `int_id`, unless one is already pending.
    pub fn interrupt(&mut self, int_id: u64)
        ensures
            final(self).bus_state() == old(self).bus_state(),
            final(self).cpu_state() == (if old(self).cpu_state().pending_interrupt is None {
                old(self).cpu_state().with_pending(Some(int_id))
            } else {
                old(self).cpu_state()
            }),
    {
        self.cpu.interrupt(int_id);
    }
}

} // verus!
