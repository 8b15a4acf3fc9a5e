use crate::display::{
    collides, covered_so_far, covers, drawn, lemma_pixel_coordinates, lemma_pixel_index,
    lemma_pixel_index_injective, on_screen, pixel_index, row_changes, sprite_bit, sprite_changes,
    sprite_row, Pixel,
};
use crate::timer::{Timer};
use crate::timer::delay_value;
use rand::Rng;
use vstd::prelude::*;

verus! {

/// Address at which a program is loaded and execution starts.
pub const PROGRAM_START: u16 = 0x200;

/// Largest program, in bytes, that fits in memory.
pub const MAX_PROGRAM_LEN: usize = 3584;

/// Address of the built-in font.
pub const FONT_START: usize = 0x50;

/// Bytes per font glyph.
pub const GLYPH_LEN: usize = 5;

/// The built-in font: one 5-byte glyph for each hexadecimal digit.
pub open spec fn font_table() -> Seq<u8> {
    seq![
        0xf0u8, 0x90, 0x90, 0x90, 0xf0,  // 0
        0x20, 0x60, 0x20, 0x20, 0x70,  // 1
        0xf0, 0x10, 0xf0, 0x80, 0xf0,  // 2
        0xf0, 0x10, 0xf0, 0x10, 0xf0,  // 3
        0x90, 0x90, 0xf0, 0x10, 0x10,  // 4
        0xf0, 0x80, 0xf0, 0x10, 0xf0,  // 5
        0xf0, 0x80, 0xf0, 0x90, 0xf0,  // 6
        0xf0, 0x10, 0x20, 0x40, 0x40,  // 7
        0xf0, 0x90, 0xf0, 0x90, 0xf0,  // 8
        0xf0, 0x90, 0xf0, 0x10, 0xf0,  // 9
        0xf0, 0x90, 0xf0, 0x90, 0x90,  // a
        0xe0, 0x90, 0xe0, 0x90, 0xe0,  // b
        0xf0, 0x80, 0x80, 0x80, 0xf0,  // c
        0xe0, 0x90, 0x90, 0x90, 0xe0,  // d
        0xf0, 0x80, 0xf0, 0x80, 0xf0,  // e
        0xf0, 0x80, 0xf0, 0x80, 0x80,  // f
    ]
}

/// Whether address `a` lies outside the font, which programs cannot overwrite.
pub open spec fn writable(a: int) -> bool {
    !(FONT_START <= a < FONT_START + 80)
}

/// Memory right after loading `program`: the font, the program at
/// `PROGRAM_START`, zero elsewhere.
pub open spec fn initial_memory(program: Seq<u8>) -> Seq<u8> {
    Seq::new(
        4096,
        |a: int|
            if FONT_START <= a < FONT_START + 80 {
                font_table()[a - FONT_START]
            } else if PROGRAM_START <= a < PROGRAM_START + program.len() {
                program[a - PROGRAM_START]
            } else {
                0u8
            },
    )
}

/// State of one key of the keypad.
#[derive(Clone, Copy, Debug, PartialEq, Eq, Structural)]
pub enum Key {
    Up,
    Down,
}

/// Why the machine cannot go on.
#[derive(Clone, Copy, Debug, PartialEq, Eq, Structural)]
pub enum Fault {
    /// The word at `pc` is no instruction this machine knows.
    UnknownInstruction { instr: u16, pc: u16 },
    /// A return at `pc` found the call stack empty.
    StackUnderflow { pc: u16 },
}

/// Why a program cannot be loaded.
#[derive(Clone, Copy, Debug, PartialEq, Eq, Structural)]
pub enum LoadError {
    /// The program has `len` bytes; at most `max` fit in memory.
    ProgramTooLarge { len: usize, max: usize },
}

/// The machine as a mathematical value.
pub struct MachineState {
    pub ram: Seq<u8>,
    pub stack: Seq<u16>,
    pub pixels: Seq<Pixel>,
    pub v: Seq<u8>,
    pub i: u16,
    pub pc: u16,
    pub keys: Seq<Key>,
    pub delay_start: u8,
    pub sound_timer: u8,
    pub draw_queue: Seq<(u8, u8, Pixel)>,
    pub full_redraw: bool,
}

impl MachineState {
    /// Sizes are fixed, addresses stay within memory and the font is intact.
    pub open spec fn wf(self) -> bool {
        &&& self.ram.len() == 4096
        &&& self.pixels.len() == 2048
        &&& self.v.len() == 16
        &&& self.keys.len() == 16
        &&& self.i < 4096
        &&& self.pc < 4096
        &&& forall|k: int| 0 <= k < self.stack.len() ==> #[trigger] self.stack[k] < 4096
        &&& self.ram.subrange(FONT_START as int, FONT_START + 80) == font_table()
    }
}

/// Register index `x` of an instruction: its second nibble.
pub open spec fn x_of(instr: u16) -> int {
    (instr / 256 % 16) as int
}

/// Register index `y` of an instruction: its third nibble.
pub open spec fn y_of(instr: u16) -> int {
    (instr / 16 % 16) as int
}

/// The low nibble of an instruction.
pub open spec fn n_of(instr: u16) -> int {
    (instr % 16) as int
}

/// The low byte of an instruction.
pub open spec fn nn_of(instr: u16) -> u8 {
    (instr % 256) as u8
}

/// The low twelve bits of an instruction: an address.
pub open spec fn nnn_of(instr: u16) -> u16 {
    instr % 4096
}

/// `pc` moved on by `k` bytes, within memory.
pub open spec fn pc_plus(pc: u16, k: int) -> u16 {
    ((pc + k) % 4096) as u16
}

/// The instruction word at `pc`, big-endian.
pub open spec fn fetch_word(ram: Seq<u8>, pc: u16) -> u16 {
    (ram[pc as int] * 256 + ram[(pc + 1) % 4096]) as u16
}

/// Moves on to the next instruction.
pub open spec fn advance(s: MachineState) -> MachineState {
    MachineState { pc: pc_plus(s.pc, 2), ..s }
}

/// Skips the next instruction when `cond` holds.
pub open spec fn skip_if(s: MachineState, cond: bool) -> MachineState {
    MachineState { pc: pc_plus(s.pc, if cond { 4 } else { 2 }), ..s }
}

/// Sets register `x` to `val`, then moves on.
pub open spec fn set_reg(s: MachineState, x: int, val: u8) -> MachineState {
    advance(MachineState { v: s.v.update(x, val), ..s })
}

/// Sets register `x` to `val` and then the flag register to `flag`, then
/// moves on.
pub open spec fn set_reg_flag(s: MachineState, x: int, val: u8, flag: bool) -> MachineState {
    advance(MachineState { v: s.v.update(x, val).update(15, if flag { 1u8 } else { 0u8 }), ..s })
}

/// A key's state; keys beyond the sixteenth read as up.
pub open spec fn key_state(keys: Seq<Key>, k: u8) -> Key {
    if k < 16 {
        keys[k as int]
    } else {
        Key::Up
    }
}

/// The keys after key `k` is read: it is up again.
pub open spec fn keys_after_test(keys: Seq<Key>, k: u8) -> Seq<Key> {
    if k < 16 {
        keys.update(k as int, Key::Up)
    } else {
        keys
    }
}

/// Memory after storing `val` at `a`; stores into the font are dropped.
pub open spec fn store(ram: Seq<u8>, a: int, val: u8) -> Seq<u8> {
    if writable(a) {
        ram.update(a, val)
    } else {
        ram
    }
}

/// Clears the screen: every pixel off, pending changes replaced by a request
/// to redraw everything.
pub open spec fn cleared(s: MachineState) -> MachineState {
    advance(
        MachineState {
            pixels: Seq::new(2048, |k: int| Pixel::Off),
            draw_queue: seq![],
            full_redraw: true,
            ..s
        },
    )
}

/// Returns from a subroutine to the instruction after the call.
pub open spec fn returned(s: MachineState) -> MachineState {
    MachineState { pc: pc_plus(s.stack.last(), 2), stack: s.stack.drop_last(), ..s }
}

/// Calls the subroutine at `addr`.
pub open spec fn called(s: MachineState, addr: u16) -> MachineState {
    MachineState { stack: s.stack.push(s.pc), pc: addr, ..s }
}

/// Tests key `vx` and skips when it is in state `state`; the key is up
/// afterwards.
pub open spec fn key_skipped(s: MachineState, vx: u8, state: Key) -> MachineState {
    skip_if(MachineState { keys: keys_after_test(s.keys, vx), ..s }, key_state(s.keys, vx) == state)
}

/// Adds `vx` to the index register, modulo 4096; the flag tells whether the
/// sum passed 4095.
pub open spec fn index_added(s: MachineState, vx: u8) -> MachineState {
    let sum = s.i + vx;
    advance(
        MachineState {
            i: (sum % 4096) as u16,
            v: s.v.update(15, if sum > 4095 { 1u8 } else { 0u8 }),
            ..s
        },
    )
}

/// Stores the three decimal digits of `vx` at `i`, `i + 1` and `i + 2`.
pub open spec fn bcd_stored(s: MachineState, vx: u8) -> MachineState {
    let a = s.i as int;
    advance(
        MachineState {
            ram: store(
                store(store(s.ram, a, vx / 100), (a + 1) % 4096, vx / 10 % 10),
                (a + 2) % 4096,
                vx % 10,
            ),
            ..s
        },
    )
}

/// Loads registers `0..=x` from memory at the index register.
pub open spec fn regs_loaded(s: MachineState, x: int) -> MachineState {
    advance(
        MachineState {
            v: Seq::new(16, |r: int| if r <= x { s.ram[(s.i + r) % 4096] } else { s.v[r] }),
            ..s
        },
    )
}

/// Draws the `n`-row sprite at the index register at `(vx, vy)`; the flag
/// tells whether a pixel that was on went off.
pub open spec fn sprite_drawn(s: MachineState, vx: u8, vy: u8, n: int) -> MachineState {
    let (x0, y0) = (vx as int, vy as int);
    advance(
        MachineState {
            pixels: drawn(s.pixels, s.ram, s.i, x0, y0, n),
            draw_queue: s.draw_queue + sprite_changes(s.pixels, s.ram, s.i, x0, y0, n),
            v: s.v.update(15, if collides(s.pixels, s.ram, s.i, x0, y0, n) { 1u8 } else { 0u8 }),
            ..s
        },
    )
}

/// The outcome of executing `instr` in state `s`, where `random` is the
/// random byte and `delay` the delay timer's reading that the instruction
/// would use.
pub open spec fn step_result(s: MachineState, instr: u16, random: u8, delay: u8) -> Result<
    MachineState,
    Fault,
> {
    let family = instr / 4096;
    let x = x_of(instr);
    let nn = nn_of(instr);
    let vx = s.v[x];
    let vy = s.v[y_of(instr)];
    let low = n_of(instr);
    if instr == 0x00E0 {
        Ok(cleared(s))
    } else if instr == 0x00EE {
        if s.stack.len() == 0 {
            Err(Fault::StackUnderflow { pc: s.pc })
        } else {
            Ok(returned(s))
        }
    } else if family == 0x1 {
        Ok(MachineState { pc: nnn_of(instr), ..s })
    } else if family == 0x2 {
        Ok(called(s, nnn_of(instr)))
    } else if family == 0x3 {
        Ok(skip_if(s, vx == nn))
    } else if family == 0x4 {
        Ok(skip_if(s, vx != nn))
    } else if family == 0x6 {
        Ok(set_reg(s, x, nn))
    } else if family == 0x7 {
        Ok(set_reg(s, x, ((vx + nn) % 256) as u8))
    } else if family == 0x8 && low == 0x0 {
        Ok(set_reg(s, x, vy))
    } else if family == 0x8 && low == 0x2 {
        Ok(set_reg(s, x, vx & vy))
    } else if family == 0x8 && low == 0x4 {
        Ok(set_reg_flag(s, x, ((vx + vy) % 256) as u8, vx + vy > 255))
    } else if family == 0x8 && low == 0x5 {
        Ok(set_reg_flag(s, x, ((vx - vy) % 256) as u8, vx >= vy))
    } else if family == 0x8 && low == 0x6 {
        Ok(set_reg_flag(s, x, vx >> 1u8, vx & 1u8 == 1))
    } else if family == 0x9 && low == 0x0 {
        Ok(skip_if(s, vx != vy))
    } else if family == 0xA {
        Ok(advance(MachineState { i: nnn_of(instr), ..s }))
    } else if family == 0xC {
        Ok(set_reg(s, x, nn & random))
    } else if family == 0xD {
        Ok(sprite_drawn(s, vx, vy, low))
    } else if family == 0xE && nn == 0x9E {
        Ok(key_skipped(s, vx, Key::Down))
    } else if family == 0xE && nn == 0xA1 {
        Ok(key_skipped(s, vx, Key::Up))
    } else if family == 0xF && nn == 0x07 {
        Ok(set_reg(s, x, delay))
    } else if family == 0xF && nn == 0x15 {
        Ok(advance(MachineState { delay_start: vx, ..s }))
    } else if family == 0xF && nn == 0x18 {
        Ok(advance(MachineState { sound_timer: vx, ..s }))
    } else if family == 0xF && nn == 0x1E {
        Ok(index_added(s, vx))
    } else if family == 0xF && nn == 0x29 {
        Ok(advance(MachineState { i: (FONT_START + GLYPH_LEN * vx) as u16, ..s }))
    } else if family == 0xF && nn == 0x33 {
        Ok(bcd_stored(s, vx))
    } else if family == 0xF && nn == 0x65 {
        Ok(regs_loaded(s, x))
    } else {
        Err(Fault::UnknownInstruction { instr, pc: s.pc })
    }
}

/// The machine is left as it was when the step fails.
pub open spec fn step_outcome(
    s: MachineState,
    instr: u16,
    random: u8,
    delay: u8,
    t: MachineState,
    r: Result<(), Fault>,
) -> bool {
    match step_result(s, instr, random, delay) {
        Ok(next) => r == Ok::<(), Fault>(()) && t == next,
        Err(f) => r == Err::<(), Fault>(f) && t == s,
    }
}

/// The machine right after loading `program`: memory as `initial_memory`
/// gives it, execution at `PROGRAM_START`, everything else zero, off, up or
/// empty.
pub open spec fn initial_state(program: Seq<u8>) -> MachineState {
    MachineState {
        ram: initial_memory(program),
        stack: seq![],
        pixels: Seq::new(2048, |k: int| Pixel::Off),
        v: Seq::new(16, |r: int| 0u8),
        i: 0,
        pc: PROGRAM_START,
        keys: Seq::new(16, |k: int| Key::Up),
        delay_start: 0,
        sound_timer: 0,
        draw_queue: seq![],
        full_redraw: false,
    }
}

/// The built-in font as bytes.
fn font_glyphs() -> (r: [u8; 80])
    ensures
        r@ == font_table(),
{
    let r: [u8; 80] = [
        0xf0, 0x90, 0x90, 0x90, 0xf0,  // 0
        0x20, 0x60, 0x20, 0x20, 0x70,  // 1
        0xf0, 0x10, 0xf0, 0x80, 0xf0,  // 2
        0xf0, 0x10, 0xf0, 0x10, 0xf0,  // 3
        0x90, 0x90, 0xf0, 0x10, 0x10,  // 4
        0xf0, 0x80, 0xf0, 0x10, 0xf0,  // 5
        0xf0, 0x80, 0xf0, 0x90, 0xf0,  // 6
        0xf0, 0x10, 0x20, 0x40, 0x40,  // 7
        0xf0, 0x90, 0xf0, 0x90, 0xf0,  // 8
        0xf0, 0x90, 0xf0, 0x10, 0xf0,  // 9
        0xf0, 0x90, 0xf0, 0x90, 0x90,  // a
        0xe0, 0x90, 0xe0, 0x90, 0xe0,  // b
        0xf0, 0x80, 0x80, 0x80, 0xf0,  // c
        0xe0, 0x90, 0x90, 0x90, 0xe0,  // d
        0xf0, 0x80, 0xf0, 0x80, 0xf0,  // e
        0xf0, 0x80, 0xf0, 0x80, 0x80,  // f
    ];
    assert(r@ =~= font_table());
    r
}

/// A store leaves the font in place.
pub proof fn lemma_store_keeps_font(ram: Seq<u8>, a: int, val: u8)
    requires
        ram.len() == 4096,
        0 <= a < 4096,
    ensures
        store(ram, a, val).len() == 4096,
        store(ram, a, val).subrange(FONT_START as int, FONT_START + 80) == ram.subrange(
            FONT_START as int,
            FONT_START + 80,
        ),
{
    assert(store(ram, a, val).subrange(FONT_START as int, FONT_START + 80) =~= ram.subrange(
        FONT_START as int,
        FONT_START + 80,
    ));
}

/// Every instruction that succeeds leaves the machine well formed: memory,
/// screen, registers and keys keep their sizes, addresses stay within memory
/// and the font is never overwritten.
pub proof fn lemma_step_keeps_wf(s: MachineState, instr: u16, random: u8, delay: u8)
    requires
        s.wf(),
    ensures
        step_result(s, instr, random, delay) is Ok ==> step_result(
            s,
            instr,
            random,
            delay,
        )->Ok_0.wf(),
{
    let family = instr / 4096;
    let nn = nn_of(instr);
    if instr == 0x00E0 || instr == 0x00EE {
    } else if family == 0x2 {
        let t = called(s, nnn_of(instr));
        assert forall|k: int| 0 <= k < t.stack.len() implies #[trigger] t.stack[k] < 4096 by {
            if k < s.stack.len() {
                assert(t.stack[k] == s.stack[k]);
            }
        }
    } else if family == 0xF && nn == 0x33 {
        let vx = s.v[x_of(instr)];
        let a = s.i as int;
        let r1 = store(s.ram, a, vx / 100);
        let r2 = store(r1, (a + 1) % 4096, vx / 10 % 10);
        lemma_store_keeps_font(s.ram, a, vx / 100);
        lemma_store_keeps_font(r1, (a + 1) % 4096, vx / 10 % 10);
        lemma_store_keeps_font(r2, (a + 2) % 4096, vx % 10);
    }
}

/// Relies on rand's `thread_rng` and `Rng::gen_range`: a random byte drawn
/// from `0..255`.
#[verifier::external_body]
fn random_byte() -> (r: u8)
    ensures
        r < 255,
{
    rand::thread_rng().gen_range(0u8, 255u8)
}

/// A CHIP-8 machine: 4096 bytes of memory, sixteen 8-bit registers, an index
/// register, a program counter, a call stack, a 64 by 32 screen, sixteen keys
/// and the delay and sound timers.
///
/// The call stack is not bounded: the sixteen entries of CHIP-8 hardware
/// are not enforced.
pub struct Chip8 {
    ram: [u8; 4096],
    stack: Vec<u16>,
    pixels: [Pixel; 2048],
    v: [u8; 16],
    i: u16,
    pc: u16,
    keys: [Key; 16],
    delay_timer: Timer,
    sound_timer: u8,
    draw_queue: Vec<(u8, u8, Pixel)>,
    full_redraw: bool,
}

impl View for Chip8 {
    type V = MachineState;

    closed spec fn view(&self) -> MachineState {
        MachineState {
            ram: self.ram@,
            stack: self.stack@,
            pixels: self.pixels@,
            v: self.v@,
            i: self.i,
            pc: self.pc,
            keys: self.keys@,
            delay_start: self.delay_timer.start_count(),
            sound_timer: self.sound_timer,
            draw_queue: self.draw_queue@,
            full_redraw: self.full_redraw,
        }
    }
}

impl Chip8 {
    /// Loads `program` at `PROGRAM_START`, with the font in place; a program
    /// longer than `MAX_PROGRAM_LEN` bytes is refused.
    pub fn initialize(rom: Vec<u8>) -> (r: Result<Chip8, LoadError>)
        ensures
            match r {
                Ok(c) => rom@.len() <= MAX_PROGRAM_LEN && c@ == initial_state(rom@) && c@.wf(),
                Err(e) => rom@.len() > MAX_PROGRAM_LEN && e == (LoadError::ProgramTooLarge {
                    len: rom@.len() as usize,
                    max: MAX_PROGRAM_LEN,
                }),
            },
    {
        if rom.len() > MAX_PROGRAM_LEN {
            return Err(LoadError::ProgramTooLarge { len: rom.len(), max: MAX_PROGRAM_LEN });
        }
        let mut ram = [0u8; 4096];
        let start = PROGRAM_START as usize;
        let mut k: usize = 0;
        assert(ram@ =~= Seq::new(
            4096,
            |a: int| if start <= a < start + 0 { rom@[a - start] } else { 0u8 },
        ));
        while k < rom.len()
            invariant
                rom@.len() <= MAX_PROGRAM_LEN,
                start == PROGRAM_START,
                k <= rom@.len(),
                ram@ == Seq::new(
                    4096,
                    |a: int| if start <= a < start + k { rom@[a - start] } else { 0u8 },
                ),
            decreases rom@.len() - k,
        {
            ram[start + k] = rom[k];
            k = k + 1;
            assert(ram@ =~= Seq::new(
                4096,
                |a: int| if start <= a < start + k { rom@[a - start] } else { 0u8 },
            ));
        }
        let font = font_glyphs();
        let mut k: usize = 0;
        while k < 80
            invariant
                rom@.len() <= MAX_PROGRAM_LEN,
                start == PROGRAM_START,
                k <= 80,
                font@ == font_table(),
                ram@ == Seq::new(
                    4096,
                    |a: int|
                        if FONT_START <= a < FONT_START + k {
                            font_table()[a - FONT_START]
                        } else if start <= a < start + rom@.len() {
                            rom@[a - start]
                        } else {
                            0u8
                        },
                ),
            decreases 80 - k,
        {
            ram[FONT_START + k] = font[k];
            k = k + 1;
            assert(ram@ =~= Seq::new(
                4096,
                |a: int|
                    if FONT_START <= a < FONT_START + k {
                        font_table()[a - FONT_START]
                    } else if start <= a < start + rom@.len() {
                        rom@[a - start]
                    } else {
                        0u8
                    },
            ));
        }
        let c = Chip8 {
            ram,
            stack: Vec::new(),
            pixels: [Pixel::Off; 2048],
            v: [0u8; 16],
            i: 0,
            pc: PROGRAM_START,
            keys: [Key::Up; 16],
            delay_timer: Timer::initialize(),
            sound_timer: 0,
            draw_queue: Vec::new(),
            full_redraw: false,
        };
        proof {
            assert(c@.ram =~= initial_memory(rom@));
            assert(c@.pixels =~= Seq::new(2048, |k: int| Pixel::Off));
            assert(c@.v =~= Seq::new(16, |r: int| 0u8));
            assert(c@.keys =~= Seq::new(16, |k: int| Key::Up));
            assert(c@.ram.subrange(FONT_START as int, FONT_START + 80) =~= font_table());
        }
        Ok(c)
    }

    /// Marks key `key` as pressed.
    pub fn press_key(&mut self, key: usize)
        requires
            old(self)@.wf(),
            key < 16,
        ensures
            final(self)@ == (MachineState {
                keys: old(self)@.keys.update(key as int, Key::Down),
                ..old(self)@
            }),
            final(self)@.wf(),
    {
        self.keys[key] = Key::Down;
    }

    /// Marks key `key` as released.
    pub fn release_key(&mut self, key: usize)
        requires
            old(self)@.wf(),
            key < 16,
        ensures
            final(self)@ == (MachineState {
                keys: old(self)@.keys.update(key as int, Key::Up),
                ..old(self)@
            }),
            final(self)@.wf(),
    {
        self.keys[key] = Key::Up;
    }

    /// Hands out the pixel changes reported since the last call, oldest
    /// first, and forgets them.
    pub fn take_draw_queue(&mut self) -> (r: Vec<(u8, u8, Pixel)>)
        requires
            old(self)@.wf(),
        ensures
            r@ == old(self)@.draw_queue,
            final(self)@ == (MachineState { draw_queue: seq![], ..old(self)@ }),
            final(self)@.wf(),
    {
        let mut taken = Vec::new();
        std::mem::swap(&mut taken, &mut self.draw_queue);
        taken
    }

    /// Whether the whole screen must be redrawn since the last call; the
    /// request is cleared.
    pub fn take_full_redraw(&mut self) -> (r: bool)
        requires
            old(self)@.wf(),
        ensures
            r == old(self)@.full_redraw,
            final(self)@ == (MachineState { full_redraw: false, ..old(self)@ }),
            final(self)@.wf(),
    {
        let r = self.full_redraw;
        self.full_redraw = false;
        r
    }

    /// The state of pixel `(x, y)`.
    pub fn pixel(&self, x: usize, y: usize) -> (r: Pixel)
        requires
            self@.wf(),
            x < 64,
            y < 32,
        ensures
            r == self@.pixels[pixel_index(x as int, y as int)],
    {
        self.pixels[y * 64 + x]
    }

    /// Register `Vx`.
    pub fn register(&self, x: usize) -> (r: u8)
        requires
            x < 16,
        ensures
            r == self@.v[x as int],
    {
        self.v[x]
    }

    /// The index register.
    pub fn index_register(&self) -> (r: u16)
        ensures
            r == self@.i,
    {
        self.i
    }

    /// The program counter.
    pub fn program_counter(&self) -> (r: u16)
        ensures
            r == self@.pc,
    {
        self.pc
    }

    /// The byte of memory at `addr`.
    pub fn memory_at(&self, addr: usize) -> (r: u8)
        requires
            addr < 4096,
        ensures
            r == self@.ram[addr as int],
    {
        self.ram[addr]
    }

    /// The state of key `key`.
    pub fn key(&self, key: usize) -> (r: Key)
        requires
            key < 16,
        ensures
            r == self@.keys[key as int],
    {
        self.keys[key]
    }

    /// The sound timer.
    pub fn sound_timer(&self) -> (r: u8)
        ensures
            r == self@.sound_timer,
    {
        self.sound_timer
    }

    /// The number of calls awaiting their return.
    pub fn stack_depth(&self) -> (r: usize)
        ensures
            r == self@.stack.len(),
    {
        self.stack.len()
    }

    /// The value the delay timer was last started at.
    pub fn delay_start(&self) -> (r: u8)
        ensures
            r == self@.delay_start,
    {
        self.delay_timer.start_value()
    }

    /// The delay timer's current reading.
    pub fn delay_timer_value(&self) -> (r: u8)
        ensures
            r <= self@.delay_start,
            exists|ms: nat| r == delay_value(self@.delay_start, ms),
    {
        self.delay_timer.get_value()
    }
    /// The instruction word at the program counter.
    fn fetch(&self) -> (r: u16)
        requires
            self@.wf(),
        ensures
            r == fetch_word(self@.ram, self@.pc),
    {
        self.fetch_at(self.pc)
    }

    /// The big-endian word at `addr`; the second byte wraps to address 0 at
    /// the end of memory.
    fn fetch_at(&self, addr: u16) -> (r: u16)
        requires
            self@.wf(),
            addr < 4096,
        ensures
            r == fetch_word(self@.ram, addr),
    {
        let a = addr as usize;
        let first_byte = self.ram[a] as u16;
        let second_byte = self.ram[(a + 1) % 4096] as u16;
        first_byte * 256 + second_byte
    }

    /// `7xnn`: adds `nn` to `Vx`, wrapping.
    fn add_const_to_v(&mut self, instr: u16)
        requires
            old(self)@.wf(),
        ensures
            final(self)@ == set_reg(
                old(self)@,
                x_of(instr),
                ((old(self)@.v[x_of(instr)] + nn_of(instr)) % 256) as u8,
            ),
    {
        let reg = (instr / 256 % 16) as usize;
        let n = (instr % 256) as u8;
        self.v[reg] = self.v[reg].wrapping_add(n);
        self.pc = (self.pc + 2) % 4096;
    }

    /// `Fx1E`: adds `Vx` to the index register, modulo 4096; the flag tells
    /// whether the sum passed 4095.
    fn add_reg_to_i(&mut self, instr: u16)
        requires
            old(self)@.wf(),
        ensures
            final(self)@ == index_added(old(self)@, old(self)@.v[x_of(instr)]),
    {
        let reg = (instr / 256 % 16) as usize;
        let sum = self.i + self.v[reg] as u16;
        self.i = sum % 4096;
        self.v[15] = if sum > 4095 { 1 } else { 0 };
        self.pc = (self.pc + 2) % 4096;
    }

    /// `00E0`: turns every pixel off and asks for a full redraw in place of the
    /// pending changes.
    fn clear_screen(&mut self, _instr: u16)
        requires
            old(self)@.wf(),
        ensures
            final(self)@ == cleared(old(self)@),
    {
        self.pixels = [Pixel::Off; 2048];
        self.draw_queue = Vec::new();
        self.full_redraw = true;
        self.pc = (self.pc + 2) % 4096;
        assert(self.pixels@ =~= Seq::new(2048, |k: int| Pixel::Off));
    }

    /// `1nnn`: jumps to `nnn`.
    fn jump(&mut self, instr: u16)
        requires
            old(self)@.wf(),
        ensures
            final(self)@ == (MachineState { pc: nnn_of(instr), ..old(self)@ }),
    {
        self.pc = instr % 4096;
    }

    /// `2nnn`: pushes the program counter and jumps to `nnn`.
    fn jump_subroutine(&mut self, instr: u16)
        requires
            old(self)@.wf(),
        ensures
            final(self)@ == called(old(self)@, nnn_of(instr)),
    {
        self.stack.push(self.pc);
        self.pc = instr % 4096;
    }

    /// `Dxyn`: draws the `n`-row sprite stored at the index register at
    /// `(Vx, Vy)` with XOR, reports each flipped pixel in the draw queue, and
    /// sets the flag when a pixel that was on went off.
    fn draw_sprite(&mut self, instr: u16)
        requires
            old(self)@.wf(),
        ensures
            final(self)@ == sprite_drawn(
                old(self)@,
                old(self)@.v[x_of(instr)],
                old(self)@.v[y_of(instr)],
                n_of(instr),
            ),
    {
        let x_reg = (instr / 256 % 16) as usize;
        let y_reg = (instr / 16 % 16) as usize;
        let n = (instr % 16) as usize;
        let x_start = self.v[x_reg] as usize;
        let y_start = self.v[y_reg] as usize;
        let mem_start = self.i as usize;
        let mut collision = false;
        let ghost s0 = self@;
        let ghost x0 = x_start as int;
        let ghost y0 = y_start as int;
        let mut row: usize = 0;
        while row < n
            invariant
                row <= n,
                n == n_of(instr),
                x_start < 256,
                y_start < 256,
                mem_start == s0.i,
                s0.wf(),
                s0 == old(self)@,
                x0 == x_start,
                y0 == y_start,
                self@ == (MachineState { pixels: self@.pixels, draw_queue: self@.draw_queue, ..s0 }),
                forall|x: int, y: int|
                    on_screen(x, y) ==> #[trigger] self@.pixels[pixel_index(x, y)] == if covers(
                        s0.ram,
                        s0.i,
                        x0,
                        y0,
                        row as int,
                        x,
                        y,
                    ) {
                        s0.pixels[pixel_index(x, y)].flipped()
                    } else {
                        s0.pixels[pixel_index(x, y)]
                    },
                collision == exists|x: int, y: int|
                    on_screen(x, y) && covers(s0.ram, s0.i, x0, y0, row as int, x, y)
                        && #[trigger] s0.pixels[pixel_index(x, y)] == Pixel::On,
                self@.draw_queue == s0.draw_queue + sprite_changes(
                    s0.pixels,
                    s0.ram,
                    s0.i,
                    x0,
                    y0,
                    row as int,
                ),
            decreases n - row,
        {
            let byte = self.ram[(mem_start + row) % 4096];
            let y = y_start + row;
            let mut col: usize = 0;
            while col < 8
                invariant
                    row < n,
                    n == n_of(instr),
                    x_start < 256,
                    y == y_start + row,
                    col <= 8,
                    mem_start == s0.i,
                    byte == sprite_row(s0.ram, s0.i, row as int),
                    s0.wf(),
                    x0 == x_start,
                    y0 == y_start,
                    self@ == (MachineState {
                        pixels: self@.pixels,
                        draw_queue: self@.draw_queue,
                        ..s0
                    }),
                    forall|px: int, py: int|
                        on_screen(px, py) ==> #[trigger] self@.pixels[pixel_index(px, py)]
                            == if covered_so_far(s0.ram, s0.i, x0, y0, row as int, col as int, px, py) {
                            s0.pixels[pixel_index(px, py)].flipped()
                        } else {
                            s0.pixels[pixel_index(px, py)]
                        },
                    collision == exists|px: int, py: int|
                        on_screen(px, py) && covered_so_far(
                            s0.ram,
                            s0.i,
                            x0,
                            y0,
                            row as int,
                            col as int,
                            px,
                            py,
                        ) && #[trigger] s0.pixels[pixel_index(px, py)] == Pixel::On,
                    self@.draw_queue == s0.draw_queue + sprite_changes(
                        s0.pixels,
                        s0.ram,
                        s0.i,
                        x0,
                        y0,
                        row as int,
                    ) + row_changes(s0.pixels, s0.ram, s0.i, x0, y0, row as int, col as int),
                decreases 8 - col,
            {
                let x = x_start + col;
                let ghost before = self@;
                let ghost was_collision = collision;
                let set = byte & (0x80u8 >> (col as u8)) != 0;
                assert(set == sprite_bit(byte, col as u8));
                if x < 64 && y < 32 && set {
                    let idx = y * 64 + x;
                    proof {
                        lemma_pixel_index(x as int, y as int);
                    }
                    let pixel = self.pixels[idx];
                    assert(!covered_so_far(s0.ram, s0.i, x0, y0, row as int, col as int, x as int, y as int));
                    assert(self@.pixels[pixel_index(x as int, y as int)] == s0.pixels[pixel_index(x as int, y as int)]);
                    assert(pixel == s0.pixels[pixel_index(x as int, y as int)]);
                    if pixel == Pixel::On {
                        collision = true;
                    }
                    self.pixels[idx] = pixel.flip();
                    self.draw_queue.push((x as u8, y as u8, self.pixels[idx]));
                    proof {
                        assert forall|px: int, py: int| on_screen(px, py) implies #[trigger] self@.pixels[pixel_index(px, py)]
                            == if covered_so_far(s0.ram, s0.i, x0, y0, row as int, col + 1, px, py) {
                            s0.pixels[pixel_index(px, py)].flipped()
                        } else {
                            s0.pixels[pixel_index(px, py)]
                        } by {
                            if pixel_index(px, py) == pixel_index(x as int, y as int) {
                                lemma_pixel_index_injective(px, py, x as int, y as int);
                                assert(covered_so_far(s0.ram, s0.i, x0, y0, row as int, col + 1, px, py));
                            } else {
                                assert(self@.pixels[pixel_index(px, py)] == before.pixels[pixel_index(px, py)]);
                                assert(before.pixels[pixel_index(px, py)] == if covered_so_far(s0.ram, s0.i, x0, y0, row as int, col as int, px, py) {
                                    s0.pixels[pixel_index(px, py)].flipped()
                                } else {
                                    s0.pixels[pixel_index(px, py)]
                                });
                                assert(covered_so_far(s0.ram, s0.i, x0, y0, row as int, col + 1, px, py)
                                    == covered_so_far(s0.ram, s0.i, x0, y0, row as int, col as int, px, py));
                            }
                        }
                        if was_collision {
                            let (wx, wy) = choose|px: int, py: int|
                                on_screen(px, py) && covered_so_far(
                                    s0.ram,
                                    s0.i,
                                    x0,
                                    y0,
                                    row as int,
                                    col as int,
                                    px,
                                    py,
                                ) && #[trigger] s0.pixels[pixel_index(px, py)] == Pixel::On;
                            assert(covered_so_far(s0.ram, s0.i, x0, y0, row as int, col + 1, wx, wy));
                        } else if pixel == Pixel::On {
                            assert(covered_so_far(s0.ram, s0.i, x0, y0, row as int, col + 1, x as int, y as int));
                        }
                        if collision {
                            assert(exists|px: int, py: int|
                                on_screen(px, py) && covered_so_far(
                                    s0.ram,
                                    s0.i,
                                    x0,
                                    y0,
                                    row as int,
                                    col + 1,
                                    px,
                                    py,
                                ) && #[trigger] s0.pixels[pixel_index(px, py)] == Pixel::On);
                        } else {
                            assert forall|px: int, py: int|
                                on_screen(px, py) && covered_so_far(
                                    s0.ram,
                                    s0.i,
                                    x0,
                                    y0,
                                    row as int,
                                    col + 1,
                                    px,
                                    py,
                                ) implies #[trigger] s0.pixels[pixel_index(px, py)] != Pixel::On by {
                                if !covered_so_far(s0.ram, s0.i, x0, y0, row as int, col as int, px, py) {
                                    assert(px == x && py == y);
                                }
                            }
                        }
                        assert(self@.draw_queue =~= s0.draw_queue + sprite_changes(
                            s0.pixels,
                            s0.ram,
                            s0.i,
                            x0,
                            y0,
                            row as int,
                        ) + row_changes(s0.pixels, s0.ram, s0.i, x0, y0, row as int, col + 1));
                    }
                } else {
                    proof {
                        assert forall|px: int, py: int| on_screen(px, py) implies
                            covered_so_far(s0.ram, s0.i, x0, y0, row as int, col + 1, px, py)
                            == covered_so_far(s0.ram, s0.i, x0, y0, row as int, col as int, px, py) by {
                            if px == x0 + col && py == y0 + row {
                                assert(!set);
                            }
                        }
                        if collision {
                            let (wx, wy) = choose|px: int, py: int|
                                on_screen(px, py) && covered_so_far(
                                    s0.ram,
                                    s0.i,
                                    x0,
                                    y0,
                                    row as int,
                                    col as int,
                                    px,
                                    py,
                                ) && #[trigger] s0.pixels[pixel_index(px, py)] == Pixel::On;
                            assert(covered_so_far(s0.ram, s0.i, x0, y0, row as int, col + 1, wx, wy));
                        }
                    }
                }
                col = col + 1;
            }
            proof {
                assert forall|px: int, py: int| on_screen(px, py) implies
                    covered_so_far(s0.ram, s0.i, x0, y0, row as int, 8, px, py)
                    == covers(s0.ram, s0.i, x0, y0, row + 1, px, py) by {}
                assert(self@.draw_queue =~= s0.draw_queue + sprite_changes(
                    s0.pixels,
                    s0.ram,
                    s0.i,
                    x0,
                    y0,
                    row + 1,
                ));
            }
            row = row + 1;
        }
        self.v[15] = if collision { 1 } else { 0 };
        self.pc = (self.pc + 2) % 4096;
        proof {
            assert forall|k: int| 0 <= k < 2048 implies #[trigger] self.pixels@[k] == drawn(
                s0.pixels,
                s0.ram,
                s0.i,
                x0,
                y0,
                n as int,
            )[k] by {
                lemma_pixel_coordinates(k);
                assert(self.pixels@[pixel_index(k % 64, k / 64)] == self.pixels@[k]);
            }
            assert(self.pixels@ =~= drawn(s0.pixels, s0.ram, s0.i, x0, y0, n as int));
        }
    }

    /// `Cxnn`: sets `Vx` to `nn` masked with the random byte `random`.
    fn rand(&mut self, instr: u16, random: u8)
        requires
            old(self)@.wf(),
        ensures
            final(self)@ == set_reg(old(self)@, x_of(instr), nn_of(instr) & random),
    {
        let reg = (instr / 256 % 16) as usize;
        let val = (instr % 256) as u8;
        self.v[reg] = val & random;
        self.pc = (self.pc + 2) % 4096;
    }

    /// The register indices `x` and `y` of an instruction.
    fn reg_get_for_math(&self, instr: u16) -> (r: (usize, usize))
        ensures
            r.0 == x_of(instr),
            r.1 == y_of(instr),
            r.0 < 16,
            r.1 < 16,
    {
        ((instr / 256 % 16) as usize, (instr / 16 % 16) as usize)
    }

    /// `8xy4`: adds `Vy` to `Vx`, wrapping; the flag tells whether the sum
    /// passed 255.
    fn reg_add(&mut self, instr: u16)
        requires
            old(self)@.wf(),
        ensures
            ({
                let (a, b) = (old(self)@.v[x_of(instr)], old(self)@.v[y_of(instr)]);
                final(self)@ == set_reg_flag(old(self)@, x_of(instr), ((a + b) % 256) as u8, a + b > 255)
            }),
    {
        let (reg1, reg2) = self.reg_get_for_math(instr);
        let val1 = self.v[reg1];
        let val2 = self.v[reg2];
        let overflow = val1 as u16 + val2 as u16 > 255;
        self.v[reg1] = val1.wrapping_add(val2);
        self.v[15] = if overflow { 1 } else { 0 };
        self.pc = (self.pc + 2) % 4096;
    }

    /// `8xy2`: sets `Vx` to `Vx & Vy`.
    fn reg_and(&mut self, instr: u16)
        requires
            old(self)@.wf(),
        ensures
            final(self)@ == set_reg(
                old(self)@,
                x_of(instr),
                old(self)@.v[x_of(instr)] & old(self)@.v[y_of(instr)],
            ),
    {
        let (reg1, reg2) = self.reg_get_for_math(instr);
        self.v[reg1] = self.v[reg1] & self.v[reg2];
        self.pc = (self.pc + 2) % 4096;
    }

    /// `Fx65`: loads registers `V0` to `Vx` from memory at the index register.
    fn reg_load(&mut self, instr: u16)
        requires
            old(self)@.wf(),
        ensures
            final(self)@ == regs_loaded(old(self)@, x_of(instr)),
    {
        let count = (instr / 256 % 16) as usize + 1;
        let mut reg: usize = 0;
        assert(self.v@ =~= Seq::new(
            16,
            |r: int| if r < 0 { old(self)@.ram[(old(self)@.i + r) % 4096] } else { old(self)@.v[r] },
        ));
        while reg < count
            invariant
                count == x_of(instr) + 1,
                reg <= count,
                self@ == (MachineState {
                    v: Seq::new(
                        16,
                        |r: int|
                            if r < reg {
                                old(self)@.ram[(old(self)@.i + r) % 4096]
                            } else {
                                old(self)@.v[r]
                            },
                    ),
                    ..old(self)@
                }),
            decreases count - reg,
        {
            let mem_location = (self.i as usize + reg) % 4096;
            self.v[reg] = self.ram[mem_location];
            proof {
                assert(self.v@ =~= Seq::new(
                    16,
                    |r: int|
                        if r < reg + 1 {
                            old(self)@.ram[(old(self)@.i + r) % 4096]
                        } else {
                            old(self)@.v[r]
                        },
                ));
            }
            reg = reg + 1;
        }
        self.pc = (self.pc + 2) % 4096;
        proof {
            assert(self.v@ =~= Seq::new(
                16,
                |r: int|
                    if r <= x_of(instr) {
                        old(self)@.ram[(old(self)@.i + r) % 4096]
                    } else {
                        old(self)@.v[r]
                    },
            ));
        }
    }

    /// `8xy0`: sets `Vx` to `Vy`.
    fn reg_set(&mut self, instr: u16)
        requires
            old(self)@.wf(),
        ensures
            final(self)@ == set_reg(old(self)@, x_of(instr), old(self)@.v[y_of(instr)]),
    {
        let (reg1, reg2) = self.reg_get_for_math(instr);
        self.v[reg1] = self.v[reg2];
        self.pc = (self.pc + 2) % 4096;
    }

    /// `8xy5`: subtracts `Vy` from `Vx`, wrapping; the flag is 0 on a borrow
    /// and 1 otherwise.
    fn reg_subtract(&mut self, instr: u16)
        requires
            old(self)@.wf(),
        ensures
            ({
                let (a, b) = (old(self)@.v[x_of(instr)], old(self)@.v[y_of(instr)]);
                final(self)@ == set_reg_flag(old(self)@, x_of(instr), ((a - b) % 256) as u8, a >= b)
            }),
    {
        let (reg1, reg2) = self.reg_get_for_math(instr);
        let val1 = self.v[reg1];
        let val2 = self.v[reg2];
        let no_borrow = val1 >= val2;
        self.v[reg1] = val1.wrapping_sub(val2);
        self.v[15] = if no_borrow { 1 } else { 0 };
        self.pc = (self.pc + 2) % 4096;
    }

    /// `00EE`: returns to the instruction after the last call; fails when no
    /// call is pending.
    fn ret(&mut self, _instr: u16) -> (r: Result<(), Fault>)
        requires
            old(self)@.wf(),
        ensures
            old(self)@.stack.len() == 0 ==> r == Err::<(), Fault>(Fault::StackUnderflow { pc: old(self)@.pc })
                && final(self)@ == old(self)@,
            old(self)@.stack.len() > 0 ==> r == Ok::<(), Fault>(()) && final(self)@ == returned(
                old(self)@,
            ),
    {
        match self.stack.pop() {
            Some(addr) => {
                assert(addr < 4096);
                self.pc = (addr + 2) % 4096;
                Ok(())
            },
            None => Err(Fault::StackUnderflow { pc: self.pc }),
        }
    }

    /// Stores `val` at `addr` unless `addr` lies in the font.
    fn store(&mut self, addr: usize, val: u8)
        requires
            old(self)@.wf(),
            addr < 4096,
        ensures
            final(self)@ == (MachineState { ram: store(old(self)@.ram, addr as int, val), ..old(self)@ }),
            final(self)@.wf(),
    {
        if addr < FONT_START || addr >= FONT_START + 80 {
            self.ram[addr] = val;
            assert(self.ram@.subrange(FONT_START as int, FONT_START + 80) =~= old(self).ram@.subrange(
                FONT_START as int,
                FONT_START + 80,
            ));
        }
    }

    /// `Fx33`: stores the hundreds, tens and ones of `Vx` at `I`, `I + 1` and
    /// `I + 2`.
    fn set_bcd(&mut self, instr: u16)
        requires
            old(self)@.wf(),
        ensures
            final(self)@ == bcd_stored(old(self)@, old(self)@.v[x_of(instr)]),
    {
        let reg = (instr / 256 % 16) as usize;
        let val = self.v[reg];
        let hundreds = val / 100;
        let tens = val / 10 % 10;
        let ones = val % 10;
        let start = self.i as usize;
        self.store(start, hundreds);
        self.store((start + 1) % 4096, tens);
        self.store((start + 2) % 4096, ones);
        self.pc = (self.pc + 2) % 4096;
    }

    /// `Fx29`: points the index register at the glyph of digit `Vx`.
    fn set_char_location(&mut self, instr: u16)
        requires
            old(self)@.wf(),
        ensures
            final(self)@ == advance(
                MachineState {
                    i: (FONT_START + GLYPH_LEN * old(self)@.v[x_of(instr)]) as u16,
                    ..old(self)@
                },
            ),
    {
        let reg = (instr / 256 % 16) as usize;
        let ch = self.v[reg] as usize;
        self.i = (FONT_START + GLYPH_LEN * ch) as u16;
        self.pc = (self.pc + 2) % 4096;
    }

    /// `Fx07`: sets `Vx` to `delay`, the delay timer's current reading.
    fn get_delay_timer(&mut self, instr: u16, delay: u8)
        requires
            old(self)@.wf(),
        ensures
            final(self)@ == set_reg(old(self)@, x_of(instr), delay),
    {
        let reg = (instr / 256 % 16) as usize;
        self.v[reg] = delay;
        self.pc = (self.pc + 2) % 4096;
    }

    /// `Fx15`: starts the delay timer at `Vx`.
    fn set_delay_timer(&mut self, instr: u16)
        requires
            old(self)@.wf(),
        ensures
            final(self)@ == advance(
                MachineState { delay_start: old(self)@.v[x_of(instr)], ..old(self)@ },
            ),
    {
        let reg = (instr / 256 % 16) as usize;
        self.delay_timer.start(self.v[reg]);
        self.pc = (self.pc + 2) % 4096;
    }

    /// `Annn`: sets the index register to `nnn`.
    fn set_index(&mut self, instr: u16)
        requires
            old(self)@.wf(),
        ensures
            final(self)@ == advance(MachineState { i: nnn_of(instr), ..old(self)@ }),
    {
        self.i = instr % 4096;
        self.pc = (self.pc + 2) % 4096;
    }

    /// `6xnn`: sets `Vx` to `nn`.
    fn set_register(&mut self, instr: u16)
        requires
            old(self)@.wf(),
        ensures
            final(self)@ == set_reg(old(self)@, x_of(instr), nn_of(instr)),
    {
        let reg = (instr / 256 % 16) as usize;
        self.v[reg] = (instr % 256) as u8;
        self.pc = (self.pc + 2) % 4096;
    }

    /// `Fx18`: sets the sound timer to `Vx`.
    fn set_sound_timer(&mut self, instr: u16)
        requires
            old(self)@.wf(),
        ensures
            final(self)@ == advance(
                MachineState { sound_timer: old(self)@.v[x_of(instr)], ..old(self)@ },
            ),
    {
        let reg = (instr / 256 % 16) as usize;
        self.sound_timer = self.v[reg];
        self.pc = (self.pc + 2) % 4096;
    }

    /// `8xy6`: shifts `Vx` right by one; the flag gets the bit shifted out.
    fn shift_right(&mut self, instr: u16)
        requires
            old(self)@.wf(),
        ensures
            ({
                let a = old(self)@.v[x_of(instr)];
                final(self)@ == set_reg_flag(old(self)@, x_of(instr), a >> 1u8, a & 1u8 == 1)
            }),
    {
        let reg = (instr / 256 % 16) as usize;
        let val = self.v[reg];
        assert(val & 1u8 == 0u8 || val & 1u8 == 1u8) by (bit_vector);
        self.v[reg] = val >> 1;
        self.v[15] = val & 1;
        self.pc = (self.pc + 2) % 4096;
    }

    /// `3xnn`: skips the next instruction when `Vx == nn`.
    fn skip_if_equal(&mut self, instr: u16)
        requires
            old(self)@.wf(),
        ensures
            final(self)@ == skip_if(old(self)@, old(self)@.v[x_of(instr)] == nn_of(instr)),
    {
        let reg = (instr / 256 % 16) as usize;
        let n = (instr % 256) as u8;
        let incr: u16 = if self.v[reg] == n { 4 } else { 2 };
        self.pc = (self.pc + incr) % 4096;
    }

    /// `9xy0`: skips the next instruction when `Vx != Vy`.
    fn skip_if_regs_unequal(&mut self, instr: u16)
        requires
            old(self)@.wf(),
        ensures
            final(self)@ == skip_if(
                old(self)@,
                old(self)@.v[x_of(instr)] != old(self)@.v[y_of(instr)],
            ),
    {
        let (reg1, reg2) = self.reg_get_for_math(instr);
        let incr: u16 = if self.v[reg1] != self.v[reg2] { 4 } else { 2 };
        self.pc = (self.pc + incr) % 4096;
    }

    /// `4xnn`: skips the next instruction when `Vx != nn`.
    fn skip_if_unequal(&mut self, instr: u16)
        requires
            old(self)@.wf(),
        ensures
            final(self)@ == skip_if(old(self)@, old(self)@.v[x_of(instr)] != nn_of(instr)),
    {
        let reg = (instr / 256 % 16) as usize;
        let n = (instr % 256) as u8;
        let incr: u16 = if self.v[reg] == n { 2 } else { 4 };
        self.pc = (self.pc + incr) % 4096;
    }

    /// `Ex9E`: skips the next instruction when key `Vx` is down; the key is
    /// up afterwards either way.
    fn skip_if_key(&mut self, instr: u16)
        requires
            old(self)@.wf(),
        ensures
            final(self)@ == key_skipped(old(self)@, old(self)@.v[x_of(instr)], Key::Down),
    {
        let reg = (instr / 256 % 16) as usize;
        let incr: u16 = match self.test_key(self.v[reg]) {
            Key::Up => 2,
            Key::Down => 4,
        };
        self.pc = (self.pc + incr) % 4096;
    }

    /// `ExA1`: skips the next instruction when key `Vx` is up; the key is up
    /// afterwards either way.
    fn skip_if_not_key(&mut self, instr: u16)
        requires
            old(self)@.wf(),
        ensures
            final(self)@ == key_skipped(old(self)@, old(self)@.v[x_of(instr)], Key::Up),
    {
        let reg = (instr / 256 % 16) as usize;
        let incr: u16 = match self.test_key(self.v[reg]) {
            Key::Up => 4,
            Key::Down => 2,
        };
        self.pc = (self.pc + incr) % 4096;
    }

    /// Reads key `key_index` and sets it back to up: the keypad cannot report
    /// releases, so a press counts once. Keys beyond the sixteenth read as up.
    fn test_key(&mut self, key_index: u8) -> (r: Key)
        requires
            old(self)@.wf(),
        ensures
            r == key_state(old(self)@.keys, key_index),
            final(self)@ == (MachineState {
                keys: keys_after_test(old(self)@.keys, key_index),
                ..old(self)@
            }),
    {
        let key_index = key_index as usize;
        if key_index < 16 {
            let key = self.keys[key_index];
            self.keys[key_index] = Key::Up;
            key
        } else {
            Key::Up
        }
    }

    /// Executes the single instruction `instr`: `random` is the random byte
    /// that `Cxnn` uses and `delay` the delay timer reading that `Fx07` uses.
    /// An unknown instruction, or a return with no call pending, fails and
    /// leaves the machine as it was.
    pub fn execute(&mut self, instr: u16, random: u8, delay: u8) -> (r: Result<(), Fault>)
        requires
            old(self)@.wf(),
        ensures
            final(self)@.wf(),
            step_outcome(old(self)@, instr, random, delay, final(self)@, r),
    {
        proof {
            lemma_step_keeps_wf(self@, instr, random, delay);
        }
        let unknown = Err(Fault::UnknownInstruction { instr, pc: self.pc });
        match instr / 4096 {
            0x0 => match instr % 4096 {
                0x0e0 => {
                    self.clear_screen(instr);
                    Ok(())
                },
                0x0ee => self.ret(instr),
                _ => unknown,
            },
            0x1 => {
                self.jump(instr);
                Ok(())
            },
            0x2 => {
                self.jump_subroutine(instr);
                Ok(())
            },
            0x3 => {
                self.skip_if_equal(instr);
                Ok(())
            },
            0x4 => {
                self.skip_if_unequal(instr);
                Ok(())
            },
            0x6 => {
                self.set_register(instr);
                Ok(())
            },
            0x7 => {
                self.add_const_to_v(instr);
                Ok(())
            },
            0x8 => match instr % 16 {
                0x0 => {
                    self.reg_set(instr);
                    Ok(())
                },
                0x2 => {
                    self.reg_and(instr);
                    Ok(())
                },
                0x4 => {
                    self.reg_add(instr);
                    Ok(())
                },
                0x5 => {
                    self.reg_subtract(instr);
                    Ok(())
                },
                0x6 => {
                    self.shift_right(instr);
                    Ok(())
                },
                _ => unknown,
            },
            0x9 => match instr % 16 {
                0x0 => {
                    self.skip_if_regs_unequal(instr);
                    Ok(())
                },
                _ => unknown,
            },
            0xa => {
                self.set_index(instr);
                Ok(())
            },
            0xc => {
                self.rand(instr, random);
                Ok(())
            },
            0xd => {
                self.draw_sprite(instr);
                Ok(())
            },
            0xe => match instr % 256 {
                0x9e => {
                    self.skip_if_key(instr);
                    Ok(())
                },
                0xa1 => {
                    self.skip_if_not_key(instr);
                    Ok(())
                },
                _ => unknown,
            },
            0xf => match instr % 256 {
                0x07 => {
                    self.get_delay_timer(instr, delay);
                    Ok(())
                },
                0x15 => {
                    self.set_delay_timer(instr);
                    Ok(())
                },
                0x18 => {
                    self.set_sound_timer(instr);
                    Ok(())
                },
                0x1e => {
                    self.add_reg_to_i(instr);
                    Ok(())
                },
                0x29 => {
                    self.set_char_location(instr);
                    Ok(())
                },
                0x33 => {
                    self.set_bcd(instr);
                    Ok(())
                },
                0x65 => {
                    self.reg_load(instr);
                    Ok(())
                },
                _ => unknown,
            },
            _ => unknown,
        }
    }

    /// Runs one cycle: fetches the instruction at the program counter and
    /// executes it, with a fresh random byte below 255 and the delay timer's
    /// current reading.
    pub fn emulate_cycle(&mut self) -> (r: Result<(), Fault>)
        requires
            old(self)@.wf(),
        ensures
            final(self)@.wf(),
            exists|random: u8, delay: u8|
                {
                    &&& random < 255
                    &&& delay <= old(self)@.delay_start
                    &&& exists|ms: nat| delay == delay_value(old(self)@.delay_start, ms)
                    &&& step_outcome(
                        old(self)@,
                        fetch_word(old(self)@.ram, old(self)@.pc),
                        random,
                        delay,
                        final(self)@,
                        r,
                    )
                },
    {
        let instr = self.fetch();
        let random = if instr / 4096 == 0xc {
            random_byte()
        } else {
            0
        };
        let delay = self.delay_timer.get_value();
        self.execute(instr, random, delay)
    }
}

} // verus!
