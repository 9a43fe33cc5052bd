//! The CPU: register file, call stack, timers, and the fetch-decode-execute
//! step over the instruction table.
//!
//! A step fetches the word at the program counter, selects the first
//! instruction table entry whose fixed bits match under its mask (in
//! table-declaration order), executes it, and then ticks both timers. The
//! whole transition is pinned down by `step_spec` over the machine view
//! `CpuV`; on any error the machine is left exactly as it was.

use vstd::prelude::*;

use crate::EmuError;
use crate::display::Display;
use crate::display::PIXEL_COUNT;
use crate::display::draw_collides;
use crate::display::draw_fb;
use crate::keyboard::Keyboard;
use crate::mem::MEM_SIZE;
use crate::mem::Mem;
use crate::mem::store_at;
use crate::mem::word_at;

verus! {

/// Address where the program image is loaded and execution starts.
pub const PROGRAM_BASE: u16 = 0x200;

/// Address of the built-in font glyphs for the sixteen hexadecimal digits.
pub const FONT_BASE: u16 = 0x100;

/// Bytes per font glyph.
pub const FONT_GLYPH_SIZE: u16 = 5;

/// Maximum call depth.
pub const STACK_DEPTH: usize = 16;

/// Number of general-purpose registers.
pub const REGISTER_COUNT: usize = 16;

/// The instruction subset, one variant per instruction table entry.
#[derive(Clone, Copy, Debug, PartialEq, Eq, Structural)]
pub enum Instruction {
    /// 00E0: clear the screen.
    Cls,
    /// 00EE: pop the stack into the program counter and advance.
    Ret,
    /// 1nnn: jump to nnn.
    Jump,
    /// 2nnn: push the program counter and jump to nnn.
    Call,
    /// 3xkk: skip the next instruction if register x equals kk.
    SkipEqImm,
    /// 6xkk: load kk into register x.
    LoadImm,
    /// 7xkk: add kk to register x with 8-bit wraparound.
    AddImm,
    /// 8xy0: copy register y into register x.
    Copy,
    /// Annn: load nnn into the address register I.
    LoadI,
    /// Dxyn: draw the n-row sprite at I at (register x, register y).
    Draw,
    /// Fx29: point I at the font glyph for the digit in register x.
    FontAddr,
    /// Fx33: store the decimal digits of register x at I, I+1, I+2.
    StoreBcd,
    /// Fx55: write registers 0 through x to memory starting at I.
    RegDump,
    /// Fx65: load registers 0 through x from memory starting at I.
    RegLoad,
}

/// The first instruction table entry matching `w`. The table is scanned in
/// declaration order, an entry matching when `w & mask` equals its fixed
/// opcode bits; the fully-fixed and three-nibble masks are declared before
/// the one-nibble masks they would otherwise be shadowed by.
pub open spec fn decode(w: u16) -> Option<Instruction> {
    if w & 0xFFFF == 0x00E0 {
        Some(Instruction::Cls)
    } else if w & 0xFFFF == 0x00EE {
        Some(Instruction::Ret)
    } else if w & 0xF000 == 0x1000 {
        Some(Instruction::Jump)
    } else if w & 0xF000 == 0x2000 {
        Some(Instruction::Call)
    } else if w & 0xF000 == 0x3000 {
        Some(Instruction::SkipEqImm)
    } else if w & 0xF000 == 0x6000 {
        Some(Instruction::LoadImm)
    } else if w & 0xF000 == 0x7000 {
        Some(Instruction::AddImm)
    } else if w & 0xF000 == 0x8000 {
        Some(Instruction::Copy)
    } else if w & 0xF000 == 0xA000 {
        Some(Instruction::LoadI)
    } else if w & 0xF000 == 0xD000 {
        Some(Instruction::Draw)
    } else if w & 0xF0FF == 0xF029 {
        Some(Instruction::FontAddr)
    } else if w & 0xF0FF == 0xF033 {
        Some(Instruction::StoreBcd)
    } else if w & 0xF0FF == 0xF055 {
        Some(Instruction::RegDump)
    } else if w & 0xF0FF == 0xF065 {
        Some(Instruction::RegLoad)
    } else {
        None
    }
}

/// Nibble `pos` of an instruction word, counting from the least significant.
pub open spec fn nibble_of(ins: u16, pos: u8) -> u8
    recommends
        pos <= 3,
{
    ((ins >> ((4 * pos) as u16)) & 0x0F) as u8
}

/// Byte `pos` of an instruction word, counting from the least significant.
pub open spec fn byte_of(ins: u16, pos: u8) -> u8
    recommends
        pos <= 1,
{
    ((ins >> ((8 * pos) as u16)) & 0xFF) as u8
}

/// The x operand: the register index in the second-highest nibble.
pub open spec fn op_x(w: u16) -> u8 {
    nibble_of(w, 2)
}

/// The y operand: the register index in the third-highest nibble.
pub open spec fn op_y(w: u16) -> u8 {
    nibble_of(w, 1)
}

/// The n operand: the low nibble.
pub open spec fn op_n(w: u16) -> u8 {
    nibble_of(w, 0)
}

/// The kk immediate: the low byte.
pub open spec fn op_kk(w: u16) -> u8 {
    byte_of(w, 0)
}

/// The nnn immediate: the low twelve bits.
pub open spec fn op_nnn(w: u16) -> u16 {
    w & 0x0FFF
}

/// The program counter advanced by `k`, wrapping at sixteen bits.
pub open spec fn pc_plus(pc: u16, k: u16) -> u16 {
    if pc + k > u16::MAX {
        (pc + k - 0x10000) as u16
    } else {
        (pc + k) as u16
    }
}

/// 8-bit addition with wraparound and no flag output.
pub open spec fn wrap8(a: u8, b: u8) -> u8 {
    if a + b > u8::MAX {
        (a + b - 0x100) as u8
    } else {
        (a + b) as u8
    }
}

impl Instruction {
    /// The first instruction table entry matching `code`, scanned in
    /// declaration order.
    pub fn get_instruction(code: u16) -> (r: Option<Instruction>)
        ensures
            r == decode(code),
    {
        if code & 0xFFFF == 0x00E0 {
            Some(Instruction::Cls)
        } else if code & 0xFFFF == 0x00EE {
            Some(Instruction::Ret)
        } else if code & 0xF000 == 0x1000 {
            Some(Instruction::Jump)
        } else if code & 0xF000 == 0x2000 {
            Some(Instruction::Call)
        } else if code & 0xF000 == 0x3000 {
            Some(Instruction::SkipEqImm)
        } else if code & 0xF000 == 0x6000 {
            Some(Instruction::LoadImm)
        } else if code & 0xF000 == 0x7000 {
            Some(Instruction::AddImm)
        } else if code & 0xF000 == 0x8000 {
            Some(Instruction::Copy)
        } else if code & 0xF000 == 0xA000 {
            Some(Instruction::LoadI)
        } else if code & 0xF000 == 0xD000 {
            Some(Instruction::Draw)
        } else if code & 0xF0FF == 0xF029 {
            Some(Instruction::FontAddr)
        } else if code & 0xF0FF == 0xF033 {
            Some(Instruction::StoreBcd)
        } else if code & 0xF0FF == 0xF055 {
            Some(Instruction::RegDump)
        } else if code & 0xF0FF == 0xF065 {
            Some(Instruction::RegLoad)
        } else {
            None
        }
    }

    /// Byte `pos` of an instruction word, counting from the least
    /// significant.
    pub fn get_u8(ins: u16, pos: u8) -> (r: u8)
        requires
            pos <= 1,
        ensures
            r == byte_of(ins, pos),
    {
        ((ins >> ((8 * pos) as u16)) & 0xFF) as u8
    }

    /// Nibble `pos` of an instruction word, counting from the least
    /// significant; always at most 0xF.
    pub fn get_nibble(ins: u16, pos: u8) -> (r: u8)
        requires
            pos <= 3,
        ensures
            r == nibble_of(ins, pos),
            r <= 0xF,
    {
        let sh: u16 = (4 * pos) as u16;
        let r = ((ins >> sh) & 0x0F) as u8;
        proof {
            assert(((ins >> sh) & 0x0F) <= 0xF) by (bit_vector);
        }
        r
    }
}

/// The machine as mathematics: every component replaced by its view.
#[verifier::ext_equal]
pub ghost struct CpuV {
    /// Memory contents.
    pub mem: Seq<u8>,
    /// Framebuffer pixels, row-major.
    pub fb: Seq<bool>,
    /// Key-state mask.
    pub keys: u16,
    /// Sound timer.
    pub sound_timer: u8,
    /// Delay timer.
    pub delay_timer: u8,
    /// Program counter.
    pub pc: u16,
    /// Address register I.
    pub reg_i: u16,
    /// Stack pointer: the current call depth.
    pub sp: u8,
    /// Call stack of return addresses.
    pub stack: Seq<u16>,
    /// General-purpose registers.
    pub reg: Seq<u8>,
}

impl CpuV {
    /// Fixed sizes of every component, and the stack pointer in range.
    pub open spec fn wf(self) -> bool {
        &&& self.mem.len() == MEM_SIZE
        &&& self.fb.len() == PIXEL_COUNT
        &&& self.stack.len() == STACK_DEPTH
        &&& self.reg.len() == REGISTER_COUNT
        &&& self.sp <= STACK_DEPTH
    }
}

/// The built-in font: sixteen glyphs of five bytes each, one per hexadecimal
/// digit, loaded at `FONT_BASE` during initialization.
pub open spec fn font_table() -> Seq<u8> {
    seq![
        0xF0u8, 0x90u8, 0x90u8, 0x90u8, 0xF0u8,
        0x20u8, 0x60u8, 0x20u8, 0x20u8, 0x70u8,
        0xF0u8, 0x10u8, 0xF0u8, 0x80u8, 0xF0u8,
        0xF0u8, 0x10u8, 0xF0u8, 0x10u8, 0xF0u8,
        0x90u8, 0x90u8, 0xF0u8, 0x10u8, 0x10u8,
        0xF0u8, 0x80u8, 0xF0u8, 0x10u8, 0xF0u8,
        0xF0u8, 0x80u8, 0xF0u8, 0x90u8, 0xF0u8,
        0xF0u8, 0x10u8, 0x20u8, 0x40u8, 0x40u8,
        0xF0u8, 0x90u8, 0xF0u8, 0x90u8, 0xF0u8,
        0xF0u8, 0x90u8, 0xF0u8, 0x10u8, 0xF0u8,
        0xF0u8, 0x90u8, 0xF0u8, 0x90u8, 0x90u8,
        0xE0u8, 0x90u8, 0xE0u8, 0x90u8, 0xE0u8,
        0xF0u8, 0x80u8, 0x80u8, 0x80u8, 0xF0u8,
        0xE0u8, 0x90u8, 0x90u8, 0x90u8, 0xE0u8,
        0xF0u8, 0x80u8, 0xF0u8, 0x80u8, 0xF0u8,
        0xF0u8, 0x80u8, 0xF0u8, 0x80u8, 0x80u8,
    ]
}

/// The font table as bytes in memory order.
fn font_bytes() -> (v: Vec<u8>)
    ensures
        v@ == font_table(),
{
    let mut v: Vec<u8> = Vec::new();
    v.push(0xF0); v.push(0x90); v.push(0x90); v.push(0x90); v.push(0xF0);
    v.push(0x20); v.push(0x60); v.push(0x20); v.push(0x20); v.push(0x70);
    v.push(0xF0); v.push(0x10); v.push(0xF0); v.push(0x80); v.push(0xF0);
    v.push(0xF0); v.push(0x10); v.push(0xF0); v.push(0x10); v.push(0xF0);
    v.push(0x90); v.push(0x90); v.push(0xF0); v.push(0x10); v.push(0x10);
    v.push(0xF0); v.push(0x80); v.push(0xF0); v.push(0x10); v.push(0xF0);
    v.push(0xF0); v.push(0x80); v.push(0xF0); v.push(0x90); v.push(0xF0);
    v.push(0xF0); v.push(0x10); v.push(0x20); v.push(0x40); v.push(0x40);
    v.push(0xF0); v.push(0x90); v.push(0xF0); v.push(0x90); v.push(0xF0);
    v.push(0xF0); v.push(0x90); v.push(0xF0); v.push(0x10); v.push(0xF0);
    v.push(0xF0); v.push(0x90); v.push(0xF0); v.push(0x90); v.push(0x90);
    v.push(0xE0); v.push(0x90); v.push(0xE0); v.push(0x90); v.push(0xE0);
    v.push(0xF0); v.push(0x80); v.push(0x80); v.push(0x80); v.push(0xF0);
    v.push(0xE0); v.push(0x90); v.push(0x90); v.push(0x90); v.push(0xE0);
    v.push(0xF0); v.push(0x80); v.push(0xF0); v.push(0x80); v.push(0xF0);
    v.push(0xF0); v.push(0x80); v.push(0xF0); v.push(0x80); v.push(0x80);
    v
}

/// A framebuffer with every pixel off.
pub open spec fn blank_fb() -> Seq<bool> {
    Seq::new(PIXEL_COUNT as nat, |i: int| false)
}

/// The machine after executing the already-decoded instruction of word `w`:
/// the effect of the matched handler, including how it advances the program
/// counter. On an error the machine is unchanged.
pub open spec fn exec_spec(c: CpuV, w: u16) -> Result<CpuV, EmuError> {
    match decode(w) {
        None => Err(EmuError::Decode),
        Some(ins) => match ins {
            Instruction::Cls => Ok(CpuV { fb: blank_fb(), pc: pc_plus(c.pc, 2), ..c }),
            Instruction::Ret => if c.sp == 0 {
                Err(EmuError::StackUnderflow)
            } else {
                Ok(
                    CpuV {
                        sp: (c.sp - 1) as u8,
                        pc: pc_plus(c.stack[c.sp - 1], 2),
                        ..c
                    },
                )
            },
            Instruction::Jump => Ok(CpuV { pc: op_nnn(w), ..c }),
            Instruction::Call => if c.sp >= STACK_DEPTH as u8 {
                Err(EmuError::StackOverflow)
            } else {
                Ok(
                    CpuV {
                        stack: c.stack.update(c.sp as int, c.pc),
                        sp: (c.sp + 1) as u8,
                        pc: op_nnn(w),
                        ..c
                    },
                )
            },
            Instruction::SkipEqImm => Ok(
                CpuV {
                    pc: pc_plus(
                        c.pc,
                        if c.reg[op_x(w) as int] == op_kk(w) {
                            4
                        } else {
                            2
                        },
                    ),
                    ..c
                },
            ),
            Instruction::LoadImm => Ok(
                CpuV { reg: c.reg.update(op_x(w) as int, op_kk(w)), pc: pc_plus(c.pc, 2), ..c },
            ),
            Instruction::AddImm => Ok(
                CpuV {
                    reg: c.reg.update(op_x(w) as int, wrap8(c.reg[op_x(w) as int], op_kk(w))),
                    pc: pc_plus(c.pc, 2),
                    ..c
                },
            ),
            Instruction::Copy => Ok(
                CpuV {
                    reg: c.reg.update(op_x(w) as int, c.reg[op_y(w) as int]),
                    pc: pc_plus(c.pc, 2),
                    ..c
                },
            ),
            Instruction::LoadI => Ok(CpuV { reg_i: op_nnn(w), pc: pc_plus(c.pc, 2), ..c }),
            Instruction::Draw => if c.reg_i + op_n(w) > MEM_SIZE {
                Err(EmuError::Capacity)
            } else {
                let sprite = c.mem.subrange(c.reg_i as int, c.reg_i + op_n(w));
                let x = c.reg[op_x(w) as int];
                let y = c.reg[op_y(w) as int];
                let vf: u8 = if draw_collides(c.fb, sprite, x as int, y as int) {
                    1
                } else {
                    0
                };
                Ok(
                    CpuV {
                        fb: draw_fb(c.fb, sprite, x as int, y as int),
                        reg: c.reg.update(15, vf),
                        pc: pc_plus(c.pc, 2),
                        ..c
                    },
                )
            },
            Instruction::FontAddr => if c.reg[op_x(w) as int] > 15 {
                Err(EmuError::BadDigit)
            } else {
                Ok(
                    CpuV {
                        reg_i: (FONT_BASE + FONT_GLYPH_SIZE * c.reg[op_x(w) as int]) as u16,
                        pc: pc_plus(c.pc, 2),
                        ..c
                    },
                )
            },
            Instruction::StoreBcd => if c.reg_i + 3 > MEM_SIZE {
                Err(EmuError::Capacity)
            } else {
                let v = c.reg[op_x(w) as int];
                Ok(
                    CpuV {
                        mem: c.mem.update(c.reg_i as int, (v / 100) as u8).update(
                            c.reg_i + 1,
                            ((v / 10) % 10) as u8,
                        ).update(c.reg_i + 2, (v % 10) as u8),
                        pc: pc_plus(c.pc, 2),
                        ..c
                    },
                )
            },
            Instruction::RegDump => if c.reg_i + op_x(w) + 1 > MEM_SIZE {
                Err(EmuError::Capacity)
            } else {
                Ok(
                    CpuV {
                        mem: store_at(
                            c.mem,
                            c.reg_i as int,
                            c.reg.subrange(0, op_x(w) + 1),
                        ),
                        pc: pc_plus(c.pc, 2),
                        ..c
                    },
                )
            },
            Instruction::RegLoad => if c.reg_i + op_x(w) + 1 > MEM_SIZE {
                Err(EmuError::Capacity)
            } else {
                Ok(
                    CpuV {
                        reg: Seq::new(
                            REGISTER_COUNT as nat,
                            |k: int|
                                if k <= op_x(w) {
                                    c.mem[c.reg_i + k]
                                } else {
                                    c.reg[k]
                                },
                        ),
                        pc: pc_plus(c.pc, 2),
                        ..c
                    },
                )
            },
        },
    }
}

/// Both timers ticked down by one where positive, and left at zero where
/// already zero.
pub open spec fn tick_timers(c: CpuV) -> CpuV {
    CpuV {
        delay_timer: if c.delay_timer > 0 {
            (c.delay_timer - 1) as u8
        } else {
            0
        },
        sound_timer: if c.sound_timer > 0 {
            (c.sound_timer - 1) as u8
        } else {
            0
        },
        ..c
    }
}

/// One whole step: fetch the word at the program counter, decode it against
/// the table, execute the matched handler, then tick the timers. A fetch past
/// the end of memory is a capacity error; a word no entry matches is a decode
/// error; on any error the machine is unchanged.
pub open spec fn step_spec(c: CpuV) -> Result<CpuV, EmuError> {
    if c.pc + 1 >= MEM_SIZE {
        Err(EmuError::Capacity)
    } else {
        match exec_spec(c, word_at(c.mem, c.pc as int)) {
            Ok(c2) => Ok(tick_timers(c2)),
            Err(e) => Err(e),
        }
    }
}

/// In any successful step, a delay timer that begins positive ends exactly
/// one less, and a delay timer that begins at zero stays at zero; the sound
/// timer behaves alike. No handler reloads a timer, so with no reload a timer
/// that reaches zero never decrements further.
pub proof fn lemma_timer_tick(c: CpuV)
    requires
        step_spec(c) is Ok,
    ensures
        c.delay_timer > 0 ==> (step_spec(c)->Ok_0).delay_timer == c.delay_timer - 1,
        c.delay_timer == 0 ==> (step_spec(c)->Ok_0).delay_timer == 0,
        c.sound_timer > 0 ==> (step_spec(c)->Ok_0).sound_timer == c.sound_timer - 1,
        c.sound_timer == 0 ==> (step_spec(c)->Ok_0).sound_timer == 0,
{
    let w = word_at(c.mem, c.pc as int);
    let e = exec_spec(c, w);
    assert(e is Ok && (e->Ok_0).delay_timer == c.delay_timer && (e->Ok_0).sound_timer
        == c.sound_timer);
}

/// The interpreter: memory, display, keyboard, register file, call stack and
/// timers. The view is a `CpuV` collecting the views of every part.
pub struct Cpu {
    /// Addressable memory.
    pub mem: Mem,
    /// Framebuffer.
    pub display: Display,
    /// Key state; mutated only by the host event collaborator.
    pub keyboard: Keyboard,
    /// Sound timer, ticked down once per step while positive.
    pub sound_timer: u8,
    /// Delay timer, ticked down once per step while positive.
    pub delay_timer: u8,
    /// Program counter.
    pub program_counter: u16,
    /// Address register I.
    pub reg_i: u16,
    /// Current call depth.
    pub stack_pointer: u8,
    /// Call stack of return addresses.
    pub stack: Vec<u16>,
    /// General-purpose registers.
    pub register: Vec<u8>,
}

impl View for Cpu {
    type V = CpuV;

    open spec fn view(&self) -> CpuV {
        CpuV {
            mem: self.mem@,
            fb: self.display@,
            keys: self.keyboard@,
            sound_timer: self.sound_timer,
            delay_timer: self.delay_timer,
            pc: self.program_counter,
            reg_i: self.reg_i,
            sp: self.stack_pointer,
            stack: self.stack@,
            reg: self.register@,
        }
    }
}

impl Cpu {
    /// The components have their fixed sizes and the stack pointer is in
    /// range.
    pub open spec fn well_formed(&self) -> bool {
        self@.wf()
    }

    /// A machine with zeroed registers, stack, timers and program counter,
    /// blank memory and display, and no key pressed.
    pub fn new() -> (c: Cpu)
        ensures
            c.well_formed(),
            c@.pc == 0u16,
            c@.reg_i == 0u16,
            c@.sp == 0u8,
            c@.sound_timer == 0u8,
            c@.delay_timer == 0u8,
            c@.keys == 0u16,
            forall|i: int| 0 <= i < MEM_SIZE ==> c@.mem[i] == 0u8,
            forall|p: int| 0 <= p < PIXEL_COUNT ==> !c@.fb[p],
            forall|i: int| 0 <= i < STACK_DEPTH ==> c@.stack[i] == 0u16,
            forall|i: int| 0 <= i < REGISTER_COUNT ==> c@.reg[i] == 0u8,
    {
        Cpu {
            mem: Mem::new(),
            display: Display::new(),
            keyboard: Keyboard::new(),
            register: vec![0u8; REGISTER_COUNT],
            sound_timer: 0,
            delay_timer: 0,
            reg_i: 0,
            program_counter: 0,
            stack_pointer: 0,
            stack: vec![0u16; STACK_DEPTH],
        }
    }

    /// Loads the built-in font into the font region of memory; this always
    /// fits, so it always succeeds.
    fn load_characters(&mut self) -> (r: Result<(), EmuError>)
        requires
            old(self).well_formed(),
        ensures
            final(self).well_formed(),
            r is Ok,
            final(self)@ == (CpuV {
                mem: store_at(old(self)@.mem, FONT_BASE as int, font_table()),
                ..old(self)@
            }),
    {
        let buf = font_bytes();
        let r = self.mem.load(&buf, FONT_BASE);
        proof {
            assert(self@ =~= (CpuV {
                mem: store_at(old(self)@.mem, FONT_BASE as int, font_table()),
                ..old(self)@
            }));
        }
        r
    }

    /// Initialization: loads the font glyphs into the font region and points
    /// the program counter at the program load address. Must run before any
    /// program bytes are loaded.
    pub fn init(&mut self) -> (r: Result<(), EmuError>)
        requires
            old(self).well_formed(),
        ensures
            final(self).well_formed(),
            r is Ok,
            final(self)@ == (CpuV {
                mem: store_at(old(self)@.mem, FONT_BASE as int, font_table()),
                pc: PROGRAM_BASE,
                ..old(self)@
            }),
    {
        match self.load_characters() {
            Ok(()) => {},
            Err(e) => {
                return Err(e);
            },
        }
        self.program_counter = PROGRAM_BASE;
        Ok(())
    }

    /// Copies a program image verbatim into memory at the program load
    /// address. A program too large for the remaining memory is a capacity
    /// error and writes nothing.
    pub fn load_rom(&mut self, buf: &Vec<u8>) -> (r: Result<(), EmuError>)
        requires
            old(self).well_formed(),
        ensures
            final(self).well_formed(),
            r is Ok <==> PROGRAM_BASE as int + buf@.len() <= MEM_SIZE,
            r is Ok ==> final(self)@ == (CpuV {
                mem: store_at(old(self)@.mem, PROGRAM_BASE as int, buf@),
                ..old(self)@
            }),
            r is Err ==> final(self)@ == old(self)@ && r == Err::<(), EmuError>(EmuError::Capacity),
    {
        let r = self.mem.load(buf, PROGRAM_BASE);
        proof {
            if r is Ok {
                assert(self@ =~= (CpuV {
                    mem: store_at(old(self)@.mem, PROGRAM_BASE as int, buf@),
                    ..old(self)@
                }));
            } else {
                assert(self@ =~= old(self)@);
            }
        }
        r
    }

    /// Advances the program counter by one instruction width.
    fn next(&mut self)
        ensures
            *final(self) == (Cpu {
                program_counter: pc_plus(old(self).program_counter, 2),
                ..*old(self)
            }),
    {
        self.program_counter = self.program_counter.wrapping_add(2);
    }

    /// Executes the already-decoded instruction of word `w`: the matched
    /// handler's semantic effect, including how it advances the program
    /// counter. On an error the machine is unchanged.
    fn execute(&mut self, w: u16, ins: Instruction) -> (r: Result<(), EmuError>)
        requires
            old(self).well_formed(),
            decode(w) == Some(ins),
        ensures
            final(self).well_formed(),
            (match r {
                Ok(()) => exec_spec(old(self)@, w) == Ok::<CpuV, EmuError>(final(self)@),
                Err(e) => exec_spec(old(self)@, w) == Err::<CpuV, EmuError>(e) && final(self)@
                    == old(self)@,
            }),
    {
        match ins {
            Instruction::Cls => {
                self.display.clear();
                self.next();
                proof {
                    assert(self@.fb =~= blank_fb());
                    assert(self@ =~= (CpuV {
                        fb: blank_fb(),
                        pc: pc_plus(old(self)@.pc, 2),
                        ..old(self)@
                    }));
                }
                Ok(())
            },
            Instruction::Ret => {
                if self.stack_pointer == 0 {
                    return Err(EmuError::StackUnderflow);
                }
                self.stack_pointer = self.stack_pointer - 1;
                self.program_counter = self.stack[self.stack_pointer as usize];
                self.next();
                Ok(())
            },
            Instruction::Jump => {
                self.program_counter = w & 0x0FFF;
                Ok(())
            },
            Instruction::Call => {
                if self.stack_pointer as usize >= STACK_DEPTH {
                    return Err(EmuError::StackOverflow);
                }
                self.stack.set(self.stack_pointer as usize, self.program_counter);
                self.stack_pointer = self.stack_pointer + 1;
                self.program_counter = w & 0x0FFF;
                Ok(())
            },
            Instruction::SkipEqImm => {
                let x = Instruction::get_nibble(w, 2);
                let kk = Instruction::get_u8(w, 0);
                let adv: u16 = if self.register[x as usize] == kk {
                    4
                } else {
                    2
                };
                self.program_counter = self.program_counter.wrapping_add(adv);
                Ok(())
            },
            Instruction::LoadImm => {
                let x = Instruction::get_nibble(w, 2);
                let kk = Instruction::get_u8(w, 0);
                self.register.set(x as usize, kk);
                self.next();
                Ok(())
            },
            Instruction::AddImm => {
                let x = Instruction::get_nibble(w, 2);
                let kk = Instruction::get_u8(w, 0);
                let v = self.register[x as usize];
                self.register.set(x as usize, v.wrapping_add(kk));
                self.next();
                Ok(())
            },
            Instruction::Copy => {
                let x = Instruction::get_nibble(w, 2);
                let y = Instruction::get_nibble(w, 1);
                let vy = self.register[y as usize];
                self.register.set(x as usize, vy);
                self.next();
                Ok(())
            },
            Instruction::LoadI => {
                self.reg_i = w & 0x0FFF;
                self.next();
                Ok(())
            },
            Instruction::Draw => {
                let n = Instruction::get_nibble(w, 0);
                let sprite = match self.mem.read(self.reg_i, n as usize) {
                    Ok(v) => v,
                    Err(e) => {
                        return Err(e);
                    },
                };
                let x = Instruction::get_nibble(w, 2);
                let y = Instruction::get_nibble(w, 1);
                let vx = self.register[x as usize];
                let vy = self.register[y as usize];
                let col = self.display.draw(sprite.as_slice(), vx, vy);
                let vf: u8 = if col {
                    1
                } else {
                    0
                };
                self.register.set(15, vf);
                self.next();
                Ok(())
            },
            Instruction::FontAddr => {
                let x = Instruction::get_nibble(w, 2);
                let v = self.register[x as usize];
                if v > 15 {
                    return Err(EmuError::BadDigit);
                }
                self.reg_i = FONT_BASE + FONT_GLYPH_SIZE * (v as u16);
                self.next();
                Ok(())
            },
            Instruction::StoreBcd => {
                if self.reg_i as usize > MEM_SIZE - 3 {
                    return Err(EmuError::Capacity);
                }
                let x = Instruction::get_nibble(w, 2);
                let v = self.register[x as usize];
                match self.mem.write_byte(v / 100, self.reg_i) {
                    Ok(()) => {},
                    Err(e) => {
                        return Err(e);
                    },
                }
                match self.mem.write_byte((v / 10) % 10, self.reg_i + 1) {
                    Ok(()) => {},
                    Err(e) => {
                        return Err(e);
                    },
                }
                match self.mem.write_byte(v % 10, self.reg_i + 2) {
                    Ok(()) => {},
                    Err(e) => {
                        return Err(e);
                    },
                }
                self.next();
                Ok(())
            },
            Instruction::RegDump => {
                let x = Instruction::get_nibble(w, 2);
                let mut buf: Vec<u8> = Vec::new();
                let mut k: usize = 0;
                while k <= x as usize
                    invariant
                        old(self).well_formed(),
                        *self == *old(self),
                        x <= 0xF,
                        k <= x as usize + 1,
                        buf@ == self.register@.subrange(0, k as int),
                    decreases x as int + 1 - k,
                {
                    buf.push(self.register[k]);
                    proof {
                        assert(buf@ =~= self.register@.subrange(0, k as int + 1));
                    }
                    k += 1;
                }
                match self.mem.load(&buf, self.reg_i) {
                    Ok(()) => {},
                    Err(e) => {
                        return Err(e);
                    },
                }
                self.next();
                proof {
                    assert(self@ =~= (CpuV {
                        mem: store_at(
                            old(self)@.mem,
                            old(self)@.reg_i as int,
                            old(self)@.reg.subrange(0, op_x(w) + 1),
                        ),
                        pc: pc_plus(old(self)@.pc, 2),
                        ..old(self)@
                    }));
                }
                Ok(())
            },
            Instruction::RegLoad => {
                let x = Instruction::get_nibble(w, 2);
                let bytes = match self.mem.read(self.reg_i, x as usize + 1) {
                    Ok(v) => v,
                    Err(e) => {
                        return Err(e);
                    },
                };
                let mut k: usize = 0;
                while k <= x as usize
                    invariant
                        old(self).well_formed(),
                        *self == (Cpu { register: self.register, ..*old(self) }),
                        self.register@.len() == REGISTER_COUNT,
                        x <= 0xF,
                        k <= x as usize + 1,
                        bytes@.len() == x as int + 1,
                        forall|i: int|
                            0 <= i < REGISTER_COUNT ==> self.register@[i] == (if i < k {
                                bytes@[i]
                            } else {
                                old(self).register@[i]
                            }),
                    decreases x as int + 1 - k,
                {
                    self.register.set(k, bytes[k]);
                    k += 1;
                }
                self.next();
                proof {
                    assert(self@.reg =~= Seq::new(
                        REGISTER_COUNT as nat,
                        |i: int|
                            if i <= op_x(w) {
                                old(self)@.mem[old(self)@.reg_i + i]
                            } else {
                                old(self)@.reg[i]
                            },
                    ));
                    assert(self@ =~= (CpuV {
                        reg: Seq::new(
                            REGISTER_COUNT as nat,
                            |i: int|
                                if i <= op_x(w) {
                                    old(self)@.mem[old(self)@.reg_i + i]
                                } else {
                                    old(self)@.reg[i]
                                },
                        ),
                        pc: pc_plus(old(self)@.pc, 2),
                        ..old(self)@
                    }));
                }
                Ok(())
            },
        }
    }

    /// One step of the fetch-decode-execute cycle, then a timer tick. Reports
    /// a capacity error when the fetch runs past the end of memory, a decode
    /// error when no table entry matches the fetched word, and the executed
    /// handler's error otherwise; on any error the machine is unchanged.
    pub fn step(&mut self) -> (r: Result<(), EmuError>)
        requires
            old(self).well_formed(),
        ensures
            final(self).well_formed(),
            (match r {
                Ok(()) => step_spec(old(self)@) == Ok::<CpuV, EmuError>(final(self)@),
                Err(e) => step_spec(old(self)@) == Err::<CpuV, EmuError>(e) && final(self)@
                    == old(self)@,
            }),
    {
        let ins_code = match self.mem.read_word(self.program_counter) {
            Ok(wd) => wd,
            Err(e) => {
                return Err(e);
            },
        };
        let instruction = match Instruction::get_instruction(ins_code) {
            Some(i) => i,
            None => {
                return Err(EmuError::Decode);
            },
        };
        match self.execute(ins_code, instruction) {
            Ok(()) => {},
            Err(e) => {
                return Err(e);
            },
        }
        if self.sound_timer > 0 {
            self.sound_timer = self.sound_timer - 1;
        }
        if self.delay_timer > 0 {
            self.delay_timer = self.delay_timer - 1;
        }
        Ok(())
    }
}

} // verus!
