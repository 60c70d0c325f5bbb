use vstd::prelude::*;

pub mod display;
pub mod error;
pub mod instruction;
pub mod lemmas;
pub mod registers;
pub mod stack;

use display::{blit, collides, draw_sprite, DISPLAY_HEIGHT, DISPLAY_SIZE, DISPLAY_WIDTH};
use error::Chip8Error;
use instruction::{decode, decode_spec, operands_in_range, Instruction};
use registers::Registers;
use stack::{Stack, STACK_CAPACITY};

verus! {

/// Bytes of addressable memory.
pub const MEMORY_SIZE: usize = 4096;

/// Address at which the program image is loaded and execution starts.
pub const PROGRAM_START: usize = 0x200;

/// Largest program image that fits above `PROGRAM_START`.
pub const MAX_PROGRAM_SIZE: usize = 3584;

/// Bytes in one font glyph.
pub const GLYPH_SIZE: u16 = 5;

/// Number of keys on the keypad.
pub const KEY_COUNT: usize = 16;

/// The built-in font: a 5-byte glyph for each hexadecimal digit.
pub open spec fn font() -> Seq<u8> {
    seq![
        0xF0u8, 0x90, 0x90, 0x90, 0xF0,
        0x20, 0x60, 0x20, 0x20, 0x70,
        0xF0, 0x10, 0xF0, 0x80, 0xF0,
        0xF0, 0x10, 0xF0, 0x10, 0xF0,
        0x90, 0x90, 0xF0, 0x10, 0x10,
        0xF0, 0x80, 0xF0, 0x10, 0xF0,
        0xF0, 0x80, 0xF0, 0x90, 0xF0,
        0xF0, 0x10, 0x20, 0x40, 0x40,
        0xF0, 0x90, 0xF0, 0x90, 0xF0,
        0xF0, 0x90, 0xF0, 0x10, 0xF0,
        0xF0, 0x90, 0xF0, 0x90, 0x90,
        0xE0, 0x90, 0xE0, 0x90, 0xE0,
        0xF0, 0x80, 0x80, 0x80, 0xF0,
        0xE0, 0x90, 0x90, 0x90, 0xE0,
        0xF0, 0x80, 0xF0, 0x80, 0xF0,
        0xF0, 0x80, 0xF0, 0x80, 0x80,
    ]
}

/// The whole state of a machine, as mathematical values.
pub struct MachineModel {
    pub ram: Seq<u8>,
    pub display: Seq<bool>,
    pub v: Seq<u8>,
    pub i: u16,
    pub pc: u16,
    pub dt: u8,
    pub st: u8,
    pub stack: Seq<u16>,
    pub keys: Seq<bool>,
    /// The register awaiting a key press, while the machine waits for one.
    pub wait: Option<u8>,
    /// The keypad as last observed while waiting.
    pub seen: Seq<bool>,
}

/// What a step asks of the host.
pub enum Signal {
    Nothing,
    Draw,
    Beep,
}

/// The side effect that `tick` hands to the host.
#[derive(Debug, PartialEq, Eq)]
pub enum Command {
    Nothing,
    /// The full framebuffer after a draw, row by row, 64 pixels to a row.
    Draw(Vec<bool>),
    /// The sound timer was started.
    Beep,
}

/// The interpreter: memory, framebuffer, registers, stack and keypad.
pub struct Chip8 {
    ram: Vec<u8>,
    display: Vec<bool>,
    regs: Registers,
    stack: Stack,
    keys: [bool; 16],
    wait: Option<u8>,
    seen: [bool; 16],
}

impl View for Chip8 {
    type V = MachineModel;

    closed spec fn view(&self) -> MachineModel {
        MachineModel {
            ram: self.ram@,
            display: self.display@,
            v: self.regs.v@,
            i: self.regs.i,
            pc: self.regs.pc,
            dt: self.regs.dt,
            st: self.regs.st,
            stack: self.stack@,
            keys: self.keys@,
            wait: self.wait,
            seen: self.seen@,
        }
    }
}

/// Whether `c` carries the signal `s`, with the framebuffer `screen` for a draw.
pub open spec fn command_matches(c: Command, s: Signal, screen: Seq<bool>) -> bool {
    match s {
        Signal::Nothing => c is Nothing,
        Signal::Beep => c is Beep,
        Signal::Draw => c matches Command::Draw(d) && d@ == screen,
    }
}

/// Whether a call that went from `before` to `after` and returned `r` did
/// what `expected` describes; on an error nothing changes.
pub open spec fn outcome(
    before: MachineModel,
    after: MachineModel,
    r: Result<Command, Chip8Error>,
    expected: Result<(MachineModel, Signal), Chip8Error>,
) -> bool {
    match expected {
        Ok((m, s)) => after == m && (r matches Ok(c) && command_matches(c, s, m.display)),
        Err(e) => r == Err::<Command, Chip8Error>(e) && after == before,
    }
}

/// The first address at or after `start` that lies outside memory.
pub open spec fn first_outside(start: int) -> usize {
    if start >= MEMORY_SIZE {
        start as usize
    } else {
        MEMORY_SIZE
    }
}

/// The `n` sprite rows at I; none when `n` is zero.
pub open spec fn sprite_rows(m: MachineModel, n: u8) -> Seq<u8> {
    if n == 0 {
        Seq::empty()
    } else {
        m.ram.subrange(m.i as int, m.i + n)
    }
}

/// `m` with V[x] set to `val`.
pub open spec fn set_reg(m: MachineModel, x: int, val: u8) -> MachineModel {
    MachineModel { v: m.v.update(x, val), ..m }
}

/// `m` with the program counter moved on by `k` bytes.
pub open spec fn advance(m: MachineModel, k: int) -> MachineModel {
    MachineModel { pc: (m.pc + k) as u16, ..m }
}

/// Moves on to the next instruction, or past it when `skip` holds.
pub open spec fn skip_if(m: MachineModel, skip: bool) -> Result<(MachineModel, Signal), Chip8Error> {
    Ok((advance(m, if skip { 4 } else { 2 }), Signal::Nothing))
}

/// Stores an ALU result: the flag VF first, then V[x].
pub open spec fn alu(m: MachineModel, x: int, flag: u8, val: u8) -> Result<(MachineModel, Signal), Chip8Error> {
    Ok((advance(set_reg(set_reg(m, 15, flag), x, val), 2), Signal::Nothing))
}

/// Stores `val` into V[x] and moves on.
pub open spec fn load(m: MachineModel, x: int, val: u8) -> Result<(MachineModel, Signal), Chip8Error> {
    Ok((advance(set_reg(m, x, val), 2), Signal::Nothing))
}

/// Whether key `k` is pressed; indices past the keypad are never pressed.
pub open spec fn key_down(m: MachineModel, k: u8) -> bool {
    k < KEY_COUNT && m.keys[k as int]
}

/// What executing `ins`, fetched at `m.pc`, does to `m`; `rnd` is the
/// random byte the instruction would use.
pub open spec fn execute_spec(m: MachineModel, ins: Instruction, rnd: u8) -> Result<(MachineModel, Signal), Chip8Error> {
    match ins {
        Instruction::Cls => Ok((
            advance(MachineModel { display: Seq::new(DISPLAY_SIZE as nat, |p: int| false), ..m }, 2),
            Signal::Nothing,
        )),
        Instruction::Ret => if m.stack.len() == 0 {
            Err(Chip8Error::StackUnderflow)
        } else {
            Ok((MachineModel { pc: m.stack.last(), stack: m.stack.drop_last(), ..m }, Signal::Nothing))
        },
        Instruction::Jp { nnn } => Ok((MachineModel { pc: nnn, ..m }, Signal::Nothing)),
        Instruction::Call { nnn } => if m.stack.len() >= STACK_CAPACITY {
            Err(Chip8Error::StackOverflow)
        } else {
            Ok((MachineModel { pc: nnn, stack: m.stack.push((m.pc + 2) as u16), ..m }, Signal::Nothing))
        },
        Instruction::SeByte { x, kk } => skip_if(m, m.v[x as int] == kk),
        Instruction::SneByte { x, kk } => skip_if(m, m.v[x as int] != kk),
        Instruction::SeReg { x, y } => skip_if(m, m.v[x as int] == m.v[y as int]),
        Instruction::SneReg { x, y } => skip_if(m, m.v[x as int] != m.v[y as int]),
        Instruction::LdByte { x, kk } => load(m, x as int, kk),
        Instruction::AddByte { x, kk } => load(m, x as int, ((m.v[x as int] + kk) % 256) as u8),
        Instruction::LdReg { x, y } => load(m, x as int, m.v[y as int]),
        Instruction::Or { x, y } => load(m, x as int, m.v[x as int] | m.v[y as int]),
        Instruction::And { x, y } => load(m, x as int, m.v[x as int] & m.v[y as int]),
        Instruction::Xor { x, y } => load(m, x as int, m.v[x as int] ^ m.v[y as int]),
        Instruction::AddReg { x, y } => {
            let sum = m.v[x as int] + m.v[y as int];
            alu(m, x as int, if sum > 255 { 1 } else { 0 }, (sum % 256) as u8)
        },
        Instruction::Sub { x, y } => alu(
            m,
            x as int,
            if m.v[x as int] >= m.v[y as int] { 1 } else { 0 },
            ((m.v[x as int] - m.v[y as int] + 256) % 256) as u8,
        ),
        Instruction::Shr { x, .. } => alu(m, x as int, m.v[x as int] & 1, m.v[x as int] >> 1u8),
        Instruction::Subn { x, y } => alu(
            m,
            x as int,
            if m.v[y as int] >= m.v[x as int] { 1 } else { 0 },
            ((m.v[y as int] - m.v[x as int] + 256) % 256) as u8,
        ),
        Instruction::Shl { x, .. } => alu(
            m,
            x as int,
            (m.v[x as int] >> 7u8) & 1,
            ((m.v[x as int] * 2) % 256) as u8,
        ),
        Instruction::LdI { nnn } => Ok((advance(MachineModel { i: nnn, ..m }, 2), Signal::Nothing)),
        Instruction::JpV0 { nnn } => Ok((MachineModel { pc: (nnn + m.v[0]) as u16, ..m }, Signal::Nothing)),
        Instruction::Rnd { x, kk } => load(m, x as int, rnd & kk),
        Instruction::Drw { x, y, n } => if n > 0 && m.i + n > MEMORY_SIZE {
            Err(Chip8Error::MemoryOutOfBounds { address: first_outside(m.i as int) })
        } else {
            let rows = sprite_rows(m, n);
            let sx = m.v[x as int] as int;
            let sy = m.v[y as int] as int;
            let hit: u8 = if collides(m.display, rows, sx, sy) { 1 } else { 0 };
            Ok((
                advance(set_reg(MachineModel { display: blit(m.display, rows, sx, sy), ..m }, 15, hit), 2),
                Signal::Draw,
            ))
        },
        Instruction::Skp { x } => skip_if(m, key_down(m, m.v[x as int])),
        Instruction::Sknp { x } => skip_if(m, !key_down(m, m.v[x as int])),
        Instruction::LdVxDt { x } => load(m, x as int, m.dt),
        Instruction::LdKey { x } => Ok((MachineModel { wait: Some(x), seen: m.keys, ..m }, Signal::Nothing)),
        Instruction::LdDtVx { x } => Ok((advance(MachineModel { dt: m.v[x as int], ..m }, 2), Signal::Nothing)),
        Instruction::LdStVx { x } => Ok((
            advance(MachineModel { st: m.v[x as int], ..m }, 2),
            if m.v[x as int] > 0 { Signal::Beep } else { Signal::Nothing },
        )),
        Instruction::AddI { x } => Ok((advance(MachineModel { i: ((m.i + m.v[x as int]) % 65536) as u16, ..m }, 2), Signal::Nothing)),
        Instruction::LdFont { x } => Ok((advance(MachineModel { i: (m.v[x as int] * GLYPH_SIZE) as u16, ..m }, 2), Signal::Nothing)),
        Instruction::LdBcd { x } => if m.i + 3 > MEMORY_SIZE {
            Err(Chip8Error::MemoryOutOfBounds { address: first_outside(m.i as int) })
        } else {
            let val = m.v[x as int];
            let ram = m.ram.update(m.i as int, val / 100).update(m.i + 1, (val / 10) % 10).update(m.i + 2, val % 10);
            Ok((advance(MachineModel { ram, ..m }, 2), Signal::Nothing))
        },
        Instruction::StoreRegs { x } => if m.i + x + 1 > MEMORY_SIZE {
            Err(Chip8Error::MemoryOutOfBounds { address: first_outside(m.i as int) })
        } else {
            let ram = Seq::new(m.ram.len(), |a: int| if m.i <= a <= m.i + x { m.v[a - m.i] } else { m.ram[a] });
            Ok((advance(MachineModel { ram, ..m }, 2), Signal::Nothing))
        },
        Instruction::LoadRegs { x } => if m.i + x + 1 > MEMORY_SIZE {
            Err(Chip8Error::MemoryOutOfBounds { address: first_outside(m.i as int) })
        } else {
            let v = Seq::new(m.v.len(), |k: int| if k <= x { m.ram[m.i + k] } else { m.v[k] });
            Ok((advance(MachineModel { v, ..m }, 2), Signal::Nothing))
        },
    }
}

/// The first key at or after `k` that is pressed in `keys` but was not in
/// `seen`, or 16 when there is none.
pub open spec fn first_new_key(keys: Seq<bool>, seen: Seq<bool>, k: int) -> int
    decreases KEY_COUNT - k,
{
    if k >= KEY_COUNT {
        KEY_COUNT as int
    } else if keys[k] && !seen[k] {
        k
    } else {
        first_new_key(keys, seen, k + 1)
    }
}

/// One tick spent waiting for a key into V[x]: a newly pressed key ends the
/// wait, and the keypad is remembered for the next look.
pub open spec fn poll_spec(m: MachineModel, x: u8) -> MachineModel {
    let k = first_new_key(m.keys, m.seen, 0);
    if k < KEY_COUNT {
        MachineModel {
            v: m.v.update(x as int, k as u8),
            pc: (m.pc + 2) as u16,
            wait: None,
            seen: m.keys,
            ..m
        }
    } else {
        MachineModel { seen: m.keys, ..m }
    }
}

/// The big-endian instruction word at `pc`.
pub open spec fn fetch_spec(m: MachineModel) -> u16 {
    (m.ram[m.pc as int] * 256 + m.ram[m.pc + 1]) as u16
}

/// What one tick does to `m`, with `rnd` as the random byte.
pub open spec fn tick_spec(m: MachineModel, rnd: u8) -> Result<(MachineModel, Signal), Chip8Error> {
    match m.wait {
        Some(x) => Ok((poll_spec(m, x), Signal::Nothing)),
        None => if m.pc + 1 >= MEMORY_SIZE {
            Err(Chip8Error::MemoryOutOfBounds { address: first_outside(m.pc as int) })
        } else {
            match decode_spec(fetch_spec(m)) {
                None => Err(Chip8Error::InvalidOpcode { pc: m.pc, instruction: fetch_spec(m) }),
                Some(ins) => execute_spec(m, ins, rnd),
            }
        },
    }
}

/// A timer after one 60 Hz period: one less, but never below zero.
pub open spec fn count_down(t: u8) -> u8 {
    if t > 0 { (t - 1) as u8 } else { 0 }
}

/// The machine as `new` leaves it with the program image `rom`.
pub open spec fn boot_model(rom: Seq<u8>) -> MachineModel {
    MachineModel {
        ram: Seq::new(MEMORY_SIZE as nat, |a: int|
            if a < font().len() {
                font()[a]
            } else if PROGRAM_START <= a < PROGRAM_START + rom.len() {
                rom[a - PROGRAM_START]
            } else {
                0u8
            }),
        display: Seq::new(DISPLAY_SIZE as nat, |p: int| false),
        v: Seq::new(16, |k: int| 0u8),
        i: 0,
        pc: PROGRAM_START as u16,
        dt: 0,
        st: 0,
        stack: Seq::empty(),
        keys: Seq::new(KEY_COUNT as nat, |k: int| false),
        wait: None,
        seen: Seq::new(KEY_COUNT as nat, |k: int| false),
    }
}

/// Relies on rand::random: a byte from the thread-local generator. Nothing
/// is known of its value.
#[verifier::external_body]
fn random_byte() -> u8 {
    rand::random::<u8>()
}

impl Chip8 {
    /// Memory, framebuffer and stack sizes are as the machine has them, and
    /// a pending key wait names a register and sits on a fetched instruction.
    pub closed spec fn wf(&self) -> bool {
        &&& self.ram@.len() == MEMORY_SIZE
        &&& self.display@.len() == DISPLAY_SIZE
        &&& self.stack.wf()
        &&& (self.wait matches Some(x) ==> x < 16 && self.regs.pc + 1 < MEMORY_SIZE)
    }

    /// What a well-formed machine guarantees of its state: memory, screen,
    /// registers and keypad have their fixed sizes, the stack is within its
    /// capacity, and a pending key wait names a register and sits on a fetched
    /// instruction.
    pub proof fn lemma_wf(&self)
        requires
            self.wf(),
        ensures
            self@.ram.len() == MEMORY_SIZE,
            self@.display.len() == DISPLAY_SIZE,
            self@.v.len() == 16,
            self@.keys.len() == KEY_COUNT,
            self@.seen.len() == KEY_COUNT,
            self@.stack.len() <= STACK_CAPACITY,
            self@.wait matches Some(x) ==> x < 16 && self@.pc + 1 < MEMORY_SIZE,
    {
    }

    /// A machine with zeroed memory, a blank screen and all registers zero.
    pub fn new_internal() -> (r: Chip8)
        ensures
            r.wf(),
            r@.ram == Seq::new(MEMORY_SIZE as nat, |a: int| 0u8),
            r@.display == Seq::new(DISPLAY_SIZE as nat, |p: int| false),
            r@.v == Seq::new(16, |k: int| 0u8),
            r@.i == 0 && r@.pc == 0 && r@.dt == 0 && r@.st == 0,
            r@.stack == Seq::<u16>::empty(),
            r@.keys == Seq::new(KEY_COUNT as nat, |k: int| false),
            r@.wait is None,
            r@.seen == Seq::new(KEY_COUNT as nat, |k: int| false),
    {
        let mut ram: Vec<u8> = Vec::new();
        while ram.len() < MEMORY_SIZE
            invariant
                ram@.len() <= MEMORY_SIZE,
                forall|a: int| 0 <= a < ram@.len() ==> ram@[a] == 0u8,
            decreases MEMORY_SIZE - ram@.len(),
        {
            ram.push(0u8);
        }
        let mut display: Vec<bool> = Vec::new();
        while display.len() < DISPLAY_SIZE
            invariant
                display@.len() <= DISPLAY_SIZE,
                forall|p: int| 0 <= p < display@.len() ==> !display@[p],
            decreases DISPLAY_SIZE - display@.len(),
        {
            display.push(false);
        }
        let r = Chip8 {
            ram,
            display,
            regs: Registers::new(),
            stack: Stack::new(),
            keys: [false; 16],
            wait: None,
            seen: [false; 16],
        };
        assert(r@.ram =~= Seq::new(MEMORY_SIZE as nat, |a: int| 0u8));
        assert(r@.display =~= Seq::new(DISPLAY_SIZE as nat, |p: int| false));
        assert(r@.keys =~= Seq::new(KEY_COUNT as nat, |k: int| false));
        assert(r@.seen =~= Seq::new(KEY_COUNT as nat, |k: int| false));
        r
    }

    /// Writes the font into the first 80 bytes of `ram`, keeping the rest.
    pub fn load_sprites(ram: &mut Vec<u8>)
        requires
            old(ram)@.len() >= font().len(),
        ensures
            final(ram)@.len() == old(ram)@.len(),
            forall|a: int| 0 <= a < font().len() ==> final(ram)@[a] == font()[a],
            forall|a: int| font().len() <= a < old(ram)@.len() ==> final(ram)@[a] == old(ram)@[a],
    {
        let sprites: [u8; 80] = [
            0xF0, 0x90, 0x90, 0x90, 0xF0,
            0x20, 0x60, 0x20, 0x20, 0x70,
            0xF0, 0x10, 0xF0, 0x80, 0xF0,
            0xF0, 0x10, 0xF0, 0x10, 0xF0,
            0x90, 0x90, 0xF0, 0x10, 0x10,
            0xF0, 0x80, 0xF0, 0x10, 0xF0,
            0xF0, 0x80, 0xF0, 0x90, 0xF0,
            0xF0, 0x10, 0x20, 0x40, 0x40,
            0xF0, 0x90, 0xF0, 0x90, 0xF0,
            0xF0, 0x90, 0xF0, 0x10, 0xF0,
            0xF0, 0x90, 0xF0, 0x90, 0x90,
            0xE0, 0x90, 0xE0, 0x90, 0xE0,
            0xF0, 0x80, 0x80, 0x80, 0xF0,
            0xE0, 0x90, 0x90, 0x90, 0xE0,
            0xF0, 0x80, 0xF0, 0x80, 0xF0,
            0xF0, 0x80, 0xF0, 0x80, 0x80,
        ];
        assert(sprites@ =~= font());
        assert(font().len() == 80);
        let ghost before = ram@;
        let mut k: usize = 0;
        while k < 80
            invariant
                k <= 80,
                sprites@ == font(),
                font().len() == 80,
                ram@.len() == before.len(),
                before.len() >= 80,
                forall|a: int| 0 <= a < k ==> ram@[a] == font()[a],
                forall|a: int| k <= a < before.len() ==> ram@[a] == before[a],
            decreases 80 - k,
        {
            ram.set(k, sprites[k]);
            k = k + 1;
        }
    }

    /// Boots a machine: the font at address 0, `rom` copied to 0x200 and the
    /// program counter on it. A program too large for memory is refused.
    pub fn new(rom: &Vec<u8>) -> (r: Result<Chip8, Chip8Error>)
        ensures
            rom@.len() <= MAX_PROGRAM_SIZE <==> r is Ok,
            r is Err ==> r == Err::<Chip8, Chip8Error>(Chip8Error::ProgramTooLarge { size: rom@.len() as usize }),
            r matches Ok(c) ==> c.wf() && c@ == boot_model(rom@),
    {
        if rom.len() > MAX_PROGRAM_SIZE {
            return Err(Chip8Error::ProgramTooLarge { size: rom.len() });
        }
        let mut this = Chip8::new_internal();
        Chip8::load_sprites(&mut this.ram);
        let ghost fonted = this.ram@;
        let ghost start = this@;
        assert(font().len() == 80);
        let mut k: usize = 0;
        while k < rom.len()
            invariant
                k <= rom@.len() <= MAX_PROGRAM_SIZE,
                this.ram@.len() == MEMORY_SIZE,
                fonted.len() == MEMORY_SIZE,
                font().len() == 80,
                this.wf(),
                this@ == (MachineModel { ram: this.ram@, ..start }),
                start.display == Seq::new(DISPLAY_SIZE as nat, |p: int| false),
                start.v == Seq::new(16, |k: int| 0u8),
                start.i == 0 && start.dt == 0 && start.st == 0,
                start.stack == Seq::<u16>::empty(),
                start.keys == Seq::new(KEY_COUNT as nat, |k: int| false),
                start.wait is None,
                start.seen == Seq::new(KEY_COUNT as nat, |k: int| false),
                forall|a: int| 0 <= a < PROGRAM_START ==> this.ram@[a] == fonted[a],
                forall|a: int| PROGRAM_START <= a < PROGRAM_START + k ==> this.ram@[a] == rom@[a - PROGRAM_START],
                forall|a: int| PROGRAM_START + k <= a < MEMORY_SIZE ==> this.ram@[a] == 0u8,
                forall|a: int| 0 <= a < font().len() ==> fonted[a] == font()[a],
                forall|a: int| font().len() <= a < MEMORY_SIZE ==> fonted[a] == 0u8,
            decreases rom@.len() - k,
        {
            this.ram.set(PROGRAM_START + k, rom[k]);
            k = k + 1;
        }
        this.regs.pc = PROGRAM_START as u16;
        assert forall|a: int| 0 <= a < MEMORY_SIZE implies #[trigger] this.ram@[a] == boot_model(rom@).ram[a] by {
            if a < PROGRAM_START {
                assert(this.ram@[a] == fonted[a]);
            }
        }
        assert(this@.ram =~= boot_model(rom@).ram);
        assert(this@ == boot_model(rom@));
        Ok(this)
    }

    /// V[x] := `val`.
    fn set_v(&mut self, x: u8, val: u8)
        requires
            old(self).wf(),
            x < 16,
        ensures
            final(self).wf(),
            final(self)@ == set_reg(old(self)@, x as int, val),
    {
        self.regs.v[x as usize] = val;
    }

    /// Moves the program counter on by `k` bytes.
    fn advance_pc(&mut self, k: u16)
        requires
            old(self).wf(),
            old(self)@.wait is None,
            old(self)@.pc + k < 0x10000,
        ensures
            final(self).wf(),
            final(self)@ == advance(old(self)@, k as int),
    {
        self.regs.pc = self.regs.pc + k;
    }

    /// Moves to the next instruction, or past it when `skip` holds.
    fn skip_when(&mut self, skip: bool) -> (r: Result<Command, Chip8Error>)
        requires
            old(self).wf(),
            old(self)@.wait is None,
            old(self)@.pc + 1 < MEMORY_SIZE,
        ensures
            final(self).wf(),
            outcome(old(self)@, final(self)@, r, skip_if(old(self)@, skip)),
    {
        if skip {
            self.advance_pc(4);
        } else {
            self.advance_pc(2);
        }
        Ok(Command::Nothing)
    }

    /// Stores an ALU result: VF := `flag`, then V[x] := `val`.
    fn store_alu(&mut self, x: u8, flag: u8, val: u8) -> (r: Result<Command, Chip8Error>)
        requires
            old(self).wf(),
            old(self)@.wait is None,
            old(self)@.pc + 1 < MEMORY_SIZE,
            x < 16,
        ensures
            final(self).wf(),
            outcome(old(self)@, final(self)@, r, alu(old(self)@, x as int, flag, val)),
    {
        self.set_v(15, flag);
        self.set_v(x, val);
        self.advance_pc(2);
        Ok(Command::Nothing)
    }

    /// V[x] := `val`, and on to the next instruction.
    fn store_load(&mut self, x: u8, val: u8) -> (r: Result<Command, Chip8Error>)
        requires
            old(self).wf(),
            old(self)@.wait is None,
            old(self)@.pc + 1 < MEMORY_SIZE,
            x < 16,
        ensures
            final(self).wf(),
            outcome(old(self)@, final(self)@, r, load(old(self)@, x as int, val)),
    {
        self.set_v(x, val);
        self.advance_pc(2);
        Ok(Command::Nothing)
    }

    /// Turns every pixel off.
    fn clear_screen(&mut self)
        requires
            old(self).wf(),
        ensures
            final(self).wf(),
            final(self)@ == (MachineModel {
                display: Seq::new(DISPLAY_SIZE as nat, |p: int| false),
                ..old(self)@
            }),
    {
        let ghost before = self@;
        let mut p: usize = 0;
        while p < DISPLAY_SIZE
            invariant
                p <= DISPLAY_SIZE,
                self.wf(),
                self@ == (MachineModel { display: self.display@, ..before }),
                forall|q: int| 0 <= q < p ==> !self.display@[q],
            decreases DISPLAY_SIZE - p,
        {
            self.display.set(p, false);
            p = p + 1;
        }
        assert(self.display@ =~= Seq::new(DISPLAY_SIZE as nat, |q: int| false));
    }

    /// DRW: XORs the n-row sprite at I onto the screen at (V[x], V[y]).
    fn draw(&mut self, x: u8, y: u8, n: u8) -> (r: Result<Command, Chip8Error>)
        requires
            old(self).wf(),
            old(self)@.wait is None,
            old(self)@.pc + 1 < MEMORY_SIZE,
            x < 16,
            y < 16,
            n < 16,
        ensures
            final(self).wf(),
            outcome(old(self)@, final(self)@, r, execute_spec(old(self)@, Instruction::Drw { x, y, n }, 0)),
    {
        let i = self.regs.i as usize;
        if n > 0 && i + n as usize > MEMORY_SIZE {
            let address = if i >= MEMORY_SIZE { i } else { MEMORY_SIZE };
            return Err(Chip8Error::MemoryOutOfBounds { address });
        }
        let start = if n == 0 { 0 } else { i };
        let sx = self.regs.v[x as usize];
        let sy = self.regs.v[y as usize];
        assert(self.ram@.subrange(start as int, start + n) =~= sprite_rows(self@, n));
        let hit = draw_sprite(&mut self.display, &self.ram, start, n as usize, sx, sy);
        self.set_v(15, if hit { 1 } else { 0 });
        self.advance_pc(2);
        Ok(Command::Draw(self.display.clone()))
    }

    /// Fx33: the hundreds, tens and units of V[x] at I, I+1 and I+2.
    fn store_bcd(&mut self, x: u8) -> (r: Result<Command, Chip8Error>)
        requires
            old(self).wf(),
            old(self)@.wait is None,
            old(self)@.pc + 1 < MEMORY_SIZE,
            x < 16,
        ensures
            final(self).wf(),
            outcome(old(self)@, final(self)@, r, execute_spec(old(self)@, Instruction::LdBcd { x }, 0)),
    {
        let i = self.regs.i as usize;
        if i + 3 > MEMORY_SIZE {
            let address = if i >= MEMORY_SIZE { i } else { MEMORY_SIZE };
            return Err(Chip8Error::MemoryOutOfBounds { address });
        }
        let val = self.regs.v[x as usize];
        self.ram.set(i, val / 100);
        self.ram.set(i + 1, (val / 10) % 10);
        self.ram.set(i + 2, val % 10);
        self.advance_pc(2);
        Ok(Command::Nothing)
    }

    /// Fx55: V[0] through V[x] into memory from I on.
    fn store_registers(&mut self, x: u8) -> (r: Result<Command, Chip8Error>)
        requires
            old(self).wf(),
            old(self)@.wait is None,
            old(self)@.pc + 1 < MEMORY_SIZE,
            x < 16,
        ensures
            final(self).wf(),
            outcome(old(self)@, final(self)@, r, execute_spec(old(self)@, Instruction::StoreRegs { x }, 0)),
    {
        let i = self.regs.i as usize;
        if i + x as usize + 1 > MEMORY_SIZE {
            let address = if i >= MEMORY_SIZE { i } else { MEMORY_SIZE };
            return Err(Chip8Error::MemoryOutOfBounds { address });
        }
        let ghost before = self@;
        let mut k: usize = 0;
        while k <= x as usize
            invariant
                k <= x + 1,
                x < 16,
                i == before.i,
                i + x + 1 <= MEMORY_SIZE,
                self.wf(),
                self@ == (MachineModel { ram: self.ram@, ..before }),
                forall|a: int| 0 <= a < MEMORY_SIZE ==> #[trigger] self.ram@[a] == if i <= a < i + k {
                    before.v[a - i]
                } else {
                    before.ram[a]
                },
            decreases x + 1 - k,
        {
            let val = self.regs.v[k];
            self.ram.set(i + k, val);
            k = k + 1;
        }
        assert(self.ram@ =~= Seq::new(before.ram.len(), |a: int| if before.i <= a <= before.i + x { before.v[a - before.i] } else { before.ram[a] }));
        self.advance_pc(2);
        Ok(Command::Nothing)
    }

    /// Fx65: V[0] through V[x] from memory at I on.
    fn load_registers(&mut self, x: u8) -> (r: Result<Command, Chip8Error>)
        requires
            old(self).wf(),
            old(self)@.wait is None,
            old(self)@.pc + 1 < MEMORY_SIZE,
            x < 16,
        ensures
            final(self).wf(),
            outcome(old(self)@, final(self)@, r, execute_spec(old(self)@, Instruction::LoadRegs { x }, 0)),
    {
        let i = self.regs.i as usize;
        if i + x as usize + 1 > MEMORY_SIZE {
            let address = if i >= MEMORY_SIZE { i } else { MEMORY_SIZE };
            return Err(Chip8Error::MemoryOutOfBounds { address });
        }
        let ghost before = self@;
        let mut k: usize = 0;
        while k <= x as usize
            invariant
                k <= x + 1,
                x < 16,
                i == before.i,
                i + x + 1 <= MEMORY_SIZE,
                self.wf(),
                self@ == (MachineModel { v: self.regs.v@, ..before }),
                self.regs.v@.len() == 16,
                forall|j: int| 0 <= j < 16 ==> #[trigger] self.regs.v@[j] == if j < k {
                    before.ram[i + j]
                } else {
                    before.v[j]
                },
            decreases x + 1 - k,
        {
            let val = self.ram[i + k];
            self.regs.v[k] = val;
            k = k + 1;
        }
        assert(self.regs.v@ =~= Seq::new(before.v.len(), |j: int| if j <= x { before.ram[before.i + j] } else { before.v[j] }));
        self.advance_pc(2);
        Ok(Command::Nothing)
    }

    /// Executes `ins`, fetched at the program counter; `random` is the byte
    /// that RND masks.
    #[verifier::rlimit(40)]
    pub fn execute(&mut self, ins: Instruction, random: u8) -> (r: Result<Command, Chip8Error>)
        requires
            old(self).wf(),
            old(self)@.wait is None,
            old(self)@.pc + 1 < MEMORY_SIZE,
            operands_in_range(ins),
        ensures
            final(self).wf(),
            outcome(old(self)@, final(self)@, r, execute_spec(old(self)@, ins, random)),
    {
        match ins {
            Instruction::Cls => {
                self.clear_screen();
                self.advance_pc(2);
                Ok(Command::Nothing)
            },
            Instruction::Ret => match self.stack.pop() {
                Ok(address) => {
                    self.regs.pc = address;
                    Ok(Command::Nothing)
                },
                Err(e) => Err(e),
            },
            Instruction::Jp { nnn } => {
                self.regs.pc = nnn;
                Ok(Command::Nothing)
            },
            Instruction::Call { nnn } => match self.stack.push(self.regs.pc + 2) {
                Ok(()) => {
                    self.regs.pc = nnn;
                    Ok(Command::Nothing)
                },
                Err(e) => Err(e),
            },
            Instruction::SeByte { x, kk } => {
                let skip = self.regs.v[x as usize] == kk;
                self.skip_when(skip)
            },
            Instruction::SneByte { x, kk } => {
                let skip = self.regs.v[x as usize] != kk;
                self.skip_when(skip)
            },
            Instruction::SeReg { x, y } => {
                let skip = self.regs.v[x as usize] == self.regs.v[y as usize];
                self.skip_when(skip)
            },
            Instruction::SneReg { x, y } => {
                let skip = self.regs.v[x as usize] != self.regs.v[y as usize];
                self.skip_when(skip)
            },
            Instruction::LdByte { x, kk } => self.store_load(x, kk),
            Instruction::AddByte { x, kk } => {
                let val = ((self.regs.v[x as usize] as u16 + kk as u16) % 256) as u8;
                self.store_load(x, val)
            },
            Instruction::LdReg { x, y } => {
                let val = self.regs.v[y as usize];
                self.store_load(x, val)
            },
            Instruction::Or { x, y } => {
                let val = self.regs.v[x as usize] | self.regs.v[y as usize];
                self.store_load(x, val)
            },
            Instruction::And { x, y } => {
                let val = self.regs.v[x as usize] & self.regs.v[y as usize];
                self.store_load(x, val)
            },
            Instruction::Xor { x, y } => {
                let val = self.regs.v[x as usize] ^ self.regs.v[y as usize];
                self.store_load(x, val)
            },
            Instruction::AddReg { x, y } => {
                let sum = self.regs.v[x as usize] as u16 + self.regs.v[y as usize] as u16;
                let flag: u8 = if sum > 255 { 1 } else { 0 };
                self.store_alu(x, flag, (sum % 256) as u8)
            },
            Instruction::Sub { x, y } => {
                let a = self.regs.v[x as usize];
                let b = self.regs.v[y as usize];
                let flag: u8 = if a >= b { 1 } else { 0 };
                self.store_alu(x, flag, ((a as u16 + 256 - b as u16) % 256) as u8)
            },
            Instruction::Shr { x, .. } => {
                let a = self.regs.v[x as usize];
                self.store_alu(x, a & 1, a >> 1u8)
            },
            Instruction::Subn { x, y } => {
                let a = self.regs.v[x as usize];
                let b = self.regs.v[y as usize];
                let flag: u8 = if b >= a { 1 } else { 0 };
                self.store_alu(x, flag, ((b as u16 + 256 - a as u16) % 256) as u8)
            },
            Instruction::Shl { x, .. } => {
                let a = self.regs.v[x as usize];
                self.store_alu(x, (a >> 7u8) & 1, ((a as u16 * 2) % 256) as u8)
            },
            Instruction::LdI { nnn } => {
                self.regs.i = nnn;
                self.advance_pc(2);
                Ok(Command::Nothing)
            },
            Instruction::JpV0 { nnn } => {
                self.regs.pc = nnn + self.regs.v[0] as u16;
                Ok(Command::Nothing)
            },
            Instruction::Rnd { x, kk } => self.store_load(x, random & kk),
            Instruction::Drw { x, y, n } => self.draw(x, y, n),
            Instruction::Skp { x } => {
                let k = self.regs.v[x as usize];
                let down = k < 16 && self.keys[k as usize];
                self.skip_when(down)
            },
            Instruction::Sknp { x } => {
                let k = self.regs.v[x as usize];
                let down = k < 16 && self.keys[k as usize];
                self.skip_when(!down)
            },
            Instruction::LdVxDt { x } => {
                let val = self.regs.dt;
                self.store_load(x, val)
            },
            Instruction::LdKey { x } => {
                self.wait = Some(x);
                self.seen = self.keys;
                Ok(Command::Nothing)
            },
            Instruction::LdDtVx { x } => {
                self.regs.dt = self.regs.v[x as usize];
                self.advance_pc(2);
                Ok(Command::Nothing)
            },
            Instruction::LdStVx { x } => {
                let val = self.regs.v[x as usize];
                self.regs.st = val;
                self.advance_pc(2);
                if val > 0 {
                    Ok(Command::Beep)
                } else {
                    Ok(Command::Nothing)
                }
            },
            Instruction::AddI { x } => {
                self.regs.i = ((self.regs.i as u32 + self.regs.v[x as usize] as u32) % 0x10000) as u16;
                self.advance_pc(2);
                Ok(Command::Nothing)
            },
            Instruction::LdFont { x } => {
                self.regs.i = self.regs.v[x as usize] as u16 * GLYPH_SIZE;
                self.advance_pc(2);
                Ok(Command::Nothing)
            },
            Instruction::LdBcd { x } => self.store_bcd(x),
            Instruction::StoreRegs { x } => self.store_registers(x),
            Instruction::LoadRegs { x } => self.load_registers(x),
        }
    }

    /// One tick spent waiting for a key into V[x].
    fn poll_key(&mut self, x: u8)
        requires
            old(self).wf(),
            old(self)@.wait == Some(x),
        ensures
            final(self).wf(),
            final(self)@ == poll_spec(old(self)@, x),
    {
        let mut k: usize = 0;
        while k < KEY_COUNT && (!self.keys[k] || self.seen[k])
            invariant
                k <= KEY_COUNT,
                first_new_key(self.keys@, self.seen@, 0) == first_new_key(self.keys@, self.seen@, k as int),
            decreases KEY_COUNT - k,
        {
            k = k + 1;
        }
        if k < KEY_COUNT {
            self.regs.v[x as usize] = k as u8;
            self.regs.pc = self.regs.pc + 2;
            self.wait = None;
        }
        self.seen = self.keys;
    }

    /// Executes one instruction, or spends one tick waiting for a key, with
    /// `random` as the byte that RND masks. On an error the machine is left
    /// as it was.
    pub fn tick_with_random(&mut self, random: u8) -> (r: Result<Command, Chip8Error>)
        requires
            old(self).wf(),
        ensures
            final(self).wf(),
            outcome(old(self)@, final(self)@, r, tick_spec(old(self)@, random)),
    {
        if let Some(x) = self.wait {
            self.poll_key(x);
            return Ok(Command::Nothing);
        }
        let pc = self.regs.pc as usize;
        if pc + 1 >= MEMORY_SIZE {
            let address = if pc >= MEMORY_SIZE { pc } else { MEMORY_SIZE };
            return Err(Chip8Error::MemoryOutOfBounds { address });
        }
        let instruction = self.ram[pc] as u16 * 256 + self.ram[pc + 1] as u16;
        match decode(instruction) {
            None => Err(Chip8Error::InvalidOpcode { pc: self.regs.pc, instruction }),
            Some(ins) => self.execute(ins, random),
        }
    }

    /// Executes one instruction, or spends one tick waiting for a key. RND
    /// draws its byte from the thread-local random generator. On an error the
    /// machine is left as it was.
    pub fn tick(&mut self) -> (r: Result<Command, Chip8Error>)
        requires
            old(self).wf(),
        ensures
            final(self).wf(),
            exists|random: u8| outcome(old(self)@, final(self)@, r, tick_spec(old(self)@, random)),
    {
        let random = random_byte();
        let r = self.tick_with_random(random);
        assert(outcome(old(self)@, self@, r, tick_spec(old(self)@, random)));
        r
    }

    /// One 60 Hz period: both timers count down, stopping at zero.
    pub fn advance_timers(&mut self)
        requires
            old(self).wf(),
        ensures
            final(self).wf(),
            final(self)@ == (MachineModel {
                dt: count_down(old(self)@.dt),
                st: count_down(old(self)@.st),
                ..old(self)@
            }),
    {
        if self.regs.dt > 0 {
            self.regs.dt = self.regs.dt - 1;
        }
        if self.regs.st > 0 {
            self.regs.st = self.regs.st - 1;
        }
    }

    /// Records that key `key` went down (`pressed`) or up.
    pub fn set_key(&mut self, key: u8, pressed: bool)
        requires
            old(self).wf(),
            key < KEY_COUNT,
        ensures
            final(self).wf(),
            final(self)@ == (MachineModel { keys: old(self)@.keys.update(key as int, pressed), ..old(self)@ }),
    {
        self.keys[key as usize] = pressed;
    }

    /// V[x].
    pub fn register(&self, x: u8) -> (r: u8)
        requires
            x < 16,
        ensures
            r == self@.v[x as int],
    {
        self.regs.v[x as usize]
    }

    /// The program counter.
    pub fn pc(&self) -> (r: u16)
        ensures
            r == self@.pc,
    {
        self.regs.pc
    }

    /// The index register I.
    pub fn index(&self) -> (r: u16)
        ensures
            r == self@.i,
    {
        self.regs.i
    }

    /// The delay timer.
    pub fn delay_timer(&self) -> (r: u8)
        ensures
            r == self@.dt,
    {
        self.regs.dt
    }

    /// The sound timer.
    pub fn sound_timer(&self) -> (r: u8)
        ensures
            r == self@.st,
    {
        self.regs.st
    }

    /// Whether sound should play: the sound timer is running.
    pub fn is_sound_on(&self) -> (r: bool)
        ensures
            r == (self@.st > 0),
    {
        self.regs.st > 0
    }

    /// Number of return addresses on the stack.
    pub fn stack_depth(&self) -> (r: usize)
        ensures
            r == self@.stack.len(),
    {
        self.stack.depth()
    }

    /// Whether the machine is waiting for a key press.
    pub fn is_waiting(&self) -> (r: bool)
        ensures
            r == self@.wait is Some,
    {
        self.wait.is_some()
    }

    /// The byte at `address`, or `None` outside memory.
    pub fn memory(&self, address: usize) -> (r: Option<u8>)
        requires
            self.wf(),
        ensures
            address < MEMORY_SIZE ==> r == Some(self@.ram[address as int]),
            address >= MEMORY_SIZE ==> r is None,
    {
        if address < MEMORY_SIZE {
            Some(self.ram[address])
        } else {
            None
        }
    }

    /// Whether the pixel in column `x` and row `y` is lit.
    pub fn pixel(&self, x: usize, y: usize) -> (r: bool)
        requires
            self.wf(),
            x < DISPLAY_WIDTH,
            y < DISPLAY_HEIGHT,
        ensures
            r == self@.display[y * DISPLAY_WIDTH + x],
    {
        self.display[y * DISPLAY_WIDTH + x]
    }

    /// A copy of the framebuffer, row by row.
    pub fn display(&self) -> (r: Vec<bool>)
        ensures
            r@ == self@.display,
    {
        self.display.clone()
    }
}

} // verus!
