//! The interpreter core: machine state, lifecycle, instruction fetch,
//! decode and dispatch, and one verified handler per opcode.

use vstd::prelude::*;

use crate::display::{
    collides_before, draw_collides, draw_display, draw_display_partial, draw_oob,
    lemma_draw_row_clip, lemma_draw_zero_rows, lemma_partial_all_cols, lemma_partial_step_clear,
    lemma_partial_step_set, lemma_partial_zero_cols, lemma_pix_decomp, pix_idx, rows_drawn,
};

verus! {

/// Total size of the byte-addressable memory.
pub const MEM_SIZE: usize = 4096;

/// Address at which a loaded program starts; the program counter begins here.
pub const MEM_OFFSET: usize = 512;

/// Address of the 80-byte glyph table (16 glyphs of 5 bytes each).
pub const FONT_OFFSET: usize = 80;

/// Width of the display in pixels.
pub const DISPLAY_WIDTH: usize = 64;

/// Height of the display in pixels.
pub const DISPLAY_HEIGHT: usize = 32;

/// The glyph table: one 5-byte sprite per hexadecimal digit 0 to F.
pub const FONTSET: [u8; 80] = [
    0xF0, 0x90, 0x90, 0x90, 0xF0,
    0x20, 0x60, 0x20, 0x20, 0x70,
    0xF0, 0x10, 0xF0, 0x80, 0xF0,
    0xF0, 0x10, 0xF0, 0x10, 0xF0,
    0x90, 0x90, 0xF0, 0x10, 0x10,
    0xF0, 0x80, 0xF0, 0x10, 0xF0,
    0xF0, 0x80, 0xF0, 0x90, 0xF0,
    0xF0, 0x10, 0x20, 0x40, 0x40,
    0xF0, 0x90, 0xF0, 0x90, 0xF0,
    0xF0, 0x90, 0xF0, 0x10, 0xF0,
    0xF0, 0x90, 0xF0, 0x90, 0x90,
    0xE0, 0x90, 0xE0, 0x90, 0xE0,
    0xF0, 0x80, 0x80, 0x80, 0xF0,
    0xE0, 0x90, 0x90, 0x90, 0xE0,
    0xF0, 0x80, 0xF0, 0x80, 0xF0,
    0xF0, 0x80, 0xF0, 0x80, 0x80,
];

/// Lifecycle state of the machine: freshly created or reset (no program),
/// executing, or halted by an explicit pause or by a fatal fault.
#[derive(Clone, Copy, Debug, PartialEq, Eq, Structural)]
pub enum RunState {
    NoROM,
    Running,
    Paused,
}

/// A fatal error condition. A faulting frame leaves the machine paused;
/// the caller may inspect the fault and choose to reset.
#[derive(Clone, Copy, Debug, PartialEq, Eq, Structural)]
pub enum Fault {
    /// A return was executed with an empty call stack.
    StackUnderflow,
    /// A memory access (instruction fetch or an access relative to the
    /// index register) fell outside the 4096-byte address space.
    AddressOutOfRange,
    /// A program larger than the space above the program offset was loaded.
    ProgramTooLarge,
}

/// The whole machine: memory, registers, call stack, timers, framebuffer,
/// key latch and configuration. All mutation goes through the methods below.
pub struct Emulator {
    /// Target frame rate; cadence is the caller's concern, the core only
    /// stores the value.
    pub max_fps: i32,
    /// Instruction cycles executed per frame. Values below 1 make a frame
    /// execute no cycles.
    pub cpf: i32,
    /// When set, the shift opcodes first copy Vy into Vx.
    pub shift_swap: bool,
    /// When set, the offset jump uses Vx (x from the instruction) instead of V0.
    pub complex_jump: bool,
    /// Lifecycle state.
    pub state: RunState,
    /// The instruction word of the most recent unimplemented instruction,
    /// if any; such an instruction is reported here and skipped.
    pub last_unimplemented: Option<u16>,
    /// Frames stepped since creation or reset.
    pub frame_count: u128,
    /// The 4096-byte address space.
    pub mem: Vec<u8>,
    /// The framebuffer: 2048 one-bit pixels, column-major (column `x`
    /// occupies indices `32 * x .. 32 * x + 32`). Collaborators read it;
    /// only the clear-screen and draw opcodes write it.
    pub display: Vec<u8>,
    /// The program counter.
    pub pc: u16,
    /// The index register.
    pub reg_i: u16,
    /// The call stack of return addresses.
    pub stack: Vec<u16>,
    /// The delay timer, decremented once per frame down to 0.
    pub delay_timer: u8,
    /// The sound timer, decremented once per frame down to 0.
    pub sound_timer: u8,
    /// The 16 general registers; register 15 doubles as the flag register.
    pub regs: Vec<u8>,
    /// The single-slot key latch: the one currently pressed key (0x0 to
    /// 0xF), or none. A second pressed key overwrites the latch; a release
    /// clears it whichever key was released.
    pub key: Option<u8>,
}

impl Emulator {
    /// Well-formedness: the buffers have their fixed sizes and every
    /// framebuffer cell is a 1-bit pixel.
    pub open spec fn wf(self) -> bool {
        &&& self.mem@.len() == 4096
        &&& self.regs@.len() == 16
        &&& self.display@.len() == 2048
        &&& forall|k: int|
            0 <= k < 2048 ==> self.display@[k] == 0 || #[trigger] self.display@[k] == 1
    }

    /// Every piece of machine state holds its initial value; the
    /// configuration fields are not part of this.
    pub open spec fn machine_cleared(self) -> bool {
        &&& self.mem@ == Seq::new(4096, |i: int| 0u8)
        &&& self.regs@ == Seq::new(16, |i: int| 0u8)
        &&& self.display@ == Seq::new(2048, |i: int| 0u8)
        &&& self.pc == 512u16
        &&& self.reg_i == 0u16
        &&& self.stack@ == Seq::<u16>::empty()
        &&& self.delay_timer == 0u8
        &&& self.sound_timer == 0u8
        &&& self.key is None
        &&& self.state is NoROM
        &&& self.frame_count == 0u128
        &&& self.last_unimplemented is None
    }

    /// The configuration fields agree.
    pub open spec fn same_config(self, other: Emulator) -> bool {
        &&& other.max_fps == self.max_fps
        &&& other.cpf == self.cpf
        &&& other.shift_swap == self.shift_swap
        &&& other.complex_jump == self.complex_jump
    }

    /// Observable equality of two machines: every field agrees.
    pub open spec fn machine_eq(self, other: Emulator) -> bool {
        &&& self.same_config(other)
        &&& other.state == self.state
        &&& other.last_unimplemented == self.last_unimplemented
        &&& other.frame_count == self.frame_count
        &&& other.mem@ == self.mem@
        &&& other.display@ == self.display@
        &&& other.pc == self.pc
        &&& other.reg_i == self.reg_i
        &&& other.stack@ == self.stack@
        &&& other.delay_timer == self.delay_timer
        &&& other.sound_timer == self.sound_timer
        &&& other.regs@ == self.regs@
        &&& other.key == self.key
    }

    /// Creates a machine in its initial state: everything cleared, 60
    /// frames per second, 10 cycles per frame, both quirk options off.
    pub fn new() -> (e: Emulator)
        ensures
            e.wf(),
            e.machine_cleared(),
            e.max_fps == 60,
            e.cpf == 10,
            !e.shift_swap,
            !e.complex_jump,
    {
        Emulator {
            max_fps: 60,
            cpf: 10,
            shift_swap: false,
            complex_jump: false,
            state: RunState::NoROM,
            last_unimplemented: None,
            frame_count: 0,
            mem: zero_vec(4096),
            display: zero_vec(2048),
            pc: 512,
            reg_i: 0,
            stack: Vec::new(),
            delay_timer: 0,
            sound_timer: 0,
            regs: zero_vec(16),
            key: None,
        }
    }

    /// Restores every piece of machine state to its initial value — the
    /// memory too, glyph table included, so the glyph table must be loaded
    /// again afterwards. The configuration fields keep their values.
    pub fn reset(&mut self)
        ensures
            final(self).wf(),
            final(self).machine_cleared(),
            old(self).same_config(*final(self)),
    {
        self.mem = zero_vec(4096);
        self.state = RunState::NoROM;
        self.last_unimplemented = None;
        self.frame_count = 0;
        self.regs = zero_vec(16);
        self.display = zero_vec(2048);
        self.pc = 512;
        self.reg_i = 0;
        self.stack = Vec::new();
        self.delay_timer = 0;
        self.sound_timer = 0;
        self.key = None;
    }

    /// Halts stepping until `resume`.
    pub fn pause(&mut self)
        ensures
            final(self).state is Paused,
            only_state_changed(*old(self), *final(self)),
    {
        self.state = RunState::Paused;
    }

    /// Starts or continues stepping.
    pub fn resume(&mut self)
        ensures
            final(self).state is Running,
            only_state_changed(*old(self), *final(self)),
    {
        self.state = RunState::Running;
    }

    /// Copies the glyph table into memory at its fixed address.
    pub fn load_font(&mut self)
        requires
            old(self).wf(),
        ensures
            final(self).wf(),
            only_mem_changed(*old(self), *final(self)),
            final(self).mem@ == old(self).mem@.skip(0).take(80)
                + FONTSET@ + old(self).mem@.skip(160),
            forall|j: int| 0 <= j < 80 ==> final(self).mem@[80 + j] == FONTSET@[j],
            forall|a: int|
                0 <= a < 4096 && !(80 <= a < 160) ==> final(self).mem@[a] == #[trigger] old(self).mem@[a],
    {
        let mut k: usize = 0;
        while k < 80
            invariant
                self.wf(),
                k <= 80,
                only_mem_changed(*old(self), *self),
                forall|j: int| 0 <= j < k ==> self.mem@[80 + j] == FONTSET@[j],
                forall|a: int|
                    0 <= a < 4096 && !(80 <= a < 80 + k) ==> self.mem@[a] == #[trigger] old(self).mem@[a],
            decreases 80 - k,
        {
            self.mem[FONT_OFFSET + k] = FONTSET[k];
            k = k + 1;
        }
        proof {
            assert(self.mem@ =~= old(self).mem@.skip(0).take(80) + FONTSET@ + old(self).mem@.skip(160));
        }
    }

    /// Copies a program into memory at the program offset and starts the
    /// machine. A program longer than the 3584 bytes of program space is
    /// rejected before any byte is written.
    pub fn load_rom(&mut self, rom: &Vec<u8>) -> (r: Result<(), Fault>)
        requires
            old(self).wf(),
        ensures
            final(self).wf(),
            rom@.len() > 3584 ==> r == Err::<(), Fault>(Fault::ProgramTooLarge)
                && old(self).machine_eq(*final(self)),
            rom@.len() <= 3584 ==> {
                &&& r == Ok::<(), Fault>(())
                &&& only_mem_and_state_changed(*old(self), *final(self))
                &&& final(self).state is Running
                &&& forall|j: int| 0 <= j < rom@.len() ==> final(self).mem@[512 + j] == rom@[j]
                &&& forall|a: int|
                    0 <= a < 4096 && !(512 <= a < 512 + rom@.len()) ==> final(self).mem@[a]
                        == #[trigger] old(self).mem@[a]
            },
    {
        if rom.len() > MEM_SIZE - MEM_OFFSET {
            return Err(Fault::ProgramTooLarge);
        }
        let mut k: usize = 0;
        while k < rom.len()
            invariant
                self.wf(),
                k <= rom@.len(),
                rom@.len() <= 3584,
                only_mem_changed(*old(self), *self),
                forall|j: int| 0 <= j < k ==> self.mem@[512 + j] == rom@[j],
                forall|a: int|
                    0 <= a < 4096 && !(512 <= a < 512 + k) ==> self.mem@[a] == #[trigger] old(self).mem@[a],
            decreases rom@.len() - k,
        {
            self.mem[MEM_OFFSET + k] = rom[k];
            k = k + 1;
        }
        self.state = RunState::Running;
        Ok(())
    }

    /// The current value of the program counter.
    pub fn get_pc(&self) -> (r: u16)
        ensures
            r == self.pc,
    {
        self.pc
    }

    /// The current value of the index register.
    pub fn get_reg_i(&self) -> (r: u16)
        ensures
            r == self.reg_i,
    {
        self.reg_i
    }

    /// The current value of the delay timer.
    pub fn get_delay_timer(&self) -> (r: u8)
        ensures
            r == self.delay_timer,
    {
        self.delay_timer
    }

    /// The current value of the sound timer.
    pub fn get_sound_timer(&self) -> (r: u8)
        ensures
            r == self.sound_timer,
    {
        self.sound_timer
    }

    /// The number of frames stepped since creation or reset.
    pub fn get_frame_count(&self) -> (r: u128)
        ensures
            r == self.frame_count,
    {
        self.frame_count
    }

    /// The current depth of the call stack.
    pub fn stack_depth(&self) -> (r: usize)
        ensures
            r == self.stack@.len(),
    {
        self.stack.len()
    }

    /// The value of general register `idx`.
    pub fn get_reg(&self, idx: u8) -> (r: u8)
        requires
            self.wf(),
            idx < 16,
        ensures
            r == self.regs@[idx as int],
    {
        self.regs[idx as usize]
    }

    /// The byte at memory address `addr`.
    pub fn get_mem(&self, addr: u16) -> (r: u8)
        requires
            self.wf(),
            addr < 4096,
        ensures
            r == self.mem@[addr as int],
    {
        self.mem[addr as usize]
    }

    /// The pixel at column `x`, row `y`: 0 for off, 1 for on.
    pub fn pixel(&self, x: usize, y: usize) -> (r: u8)
        requires
            self.wf(),
            x < 64,
            y < 32,
        ensures
            r == self.display@[pix_idx(x as int, y as int)],
            r == 0 || r == 1,
    {
        self.display[x * 32 + y]
    }
}

/// Every field agrees but possibly the lifecycle state.
pub open spec fn only_state_changed(a: Emulator, b: Emulator) -> bool {
    &&& a.same_config(b)
    &&& b.last_unimplemented == a.last_unimplemented
    &&& b.frame_count == a.frame_count
    &&& b.mem@ == a.mem@
    &&& b.display@ == a.display@
    &&& b.pc == a.pc
    &&& b.reg_i == a.reg_i
    &&& b.stack@ == a.stack@
    &&& b.delay_timer == a.delay_timer
    &&& b.sound_timer == a.sound_timer
    &&& b.regs@ == a.regs@
    &&& b.key == a.key
}

/// Every field agrees but possibly the memory contents.
pub open spec fn only_mem_changed(a: Emulator, b: Emulator) -> bool {
    &&& a.same_config(b)
    &&& b.state == a.state
    &&& b.last_unimplemented == a.last_unimplemented
    &&& b.frame_count == a.frame_count
    &&& b.display@ == a.display@
    &&& b.pc == a.pc
    &&& b.reg_i == a.reg_i
    &&& b.stack@ == a.stack@
    &&& b.delay_timer == a.delay_timer
    &&& b.sound_timer == a.sound_timer
    &&& b.regs@ == a.regs@
    &&& b.key == a.key
}

/// Every field agrees but possibly the memory and the lifecycle state.
pub open spec fn only_mem_and_state_changed(a: Emulator, b: Emulator) -> bool {
    &&& a.same_config(b)
    &&& b.last_unimplemented == a.last_unimplemented
    &&& b.frame_count == a.frame_count
    &&& b.display@ == a.display@
    &&& b.pc == a.pc
    &&& b.reg_i == a.reg_i
    &&& b.stack@ == a.stack@
    &&& b.delay_timer == a.delay_timer
    &&& b.sound_timer == a.sound_timer
    &&& b.regs@ == a.regs@
    &&& b.key == a.key
}

impl Emulator {
    /// The 16-bit instruction word at the program counter, big-endian.
    pub fn curr_inst(&self) -> (r: u16)
        requires
            self.wf(),
            self.pc as int + 1 < 4096,
        ensures
            r == fetch16(self.mem@, self.pc as int),
    {
        ((self.mem[self.pc as usize] as u16) << 8u16) | (self.mem[self.pc as usize + 1] as u16)
    }

    /// 00E0: clear the framebuffer to all-off.
    pub fn op_clear_screen(&mut self)
        requires
            old(self).wf(),
        ensures
            final(self).wf(),
            only_display_changed(*old(self), *final(self)),
            final(self).display@ == Seq::new(2048, |i: int| 0u8),
    {
        self.display = zero_vec(2048);
    }

    /// 1nnn: jump.
    pub fn op_jump(&mut self, address: u16)
        ensures
            only_pc_changed(*old(self), *final(self)),
            final(self).pc == address,
    {
        self.pc = address;
    }

    /// 2nnn: call a subroutine — push the current program counter, then jump.
    pub fn op_subroutine(&mut self, address: u16)
        ensures
            only_stack_and_pc_changed(*old(self), *final(self)),
            final(self).stack@ == old(self).stack@.push(old(self).pc),
            final(self).pc == address,
    {
        self.stack.push(self.pc);
        self.pc = address;
    }

    /// 00EE: return — pop the return address into the program counter.
    /// A return with an empty call stack is a stack-underflow fault and
    /// changes nothing.
    pub fn op_ret(&mut self) -> (r: Result<(), Fault>)
        ensures
            only_stack_and_pc_changed(*old(self), *final(self)),
            old(self).stack@.len() > 0 ==> r == Ok::<(), Fault>(()) && final(self).pc == old(self).stack@.last() && final(self).stack@ == old(self).stack@.subrange(
                0,
                old(self).stack@.len() - 1,
            ),
            old(self).stack@.len() == 0 ==> r == Err::<(), Fault>(Fault::StackUnderflow) && old(self).machine_eq(*final(self)),
    {
        match self.stack.pop() {
            Some(a) => {
                self.pc = a;
                Ok(())
            },
            None => Err(Fault::StackUnderflow),
        }
    }

    /// 3xnn: skip the next instruction if Vx equals the immediate.
    pub fn op_eq_skip(&mut self, reg: u8, val: u8)
        requires
            old(self).wf(),
            reg < 16,
            old(self).pc <= 0xFFFD,
        ensures
            only_pc_changed(*old(self), *final(self)),
            final(self).pc == (if old(self).regs@[reg as int] == val {
                (old(self).pc + 2) as u16
            } else {
                old(self).pc
            }),
    {
        if self.regs[reg as usize] == val {
            self.pc = self.pc + 2;
        }
    }

    /// 4xnn: skip the next instruction if Vx differs from the immediate.
    pub fn op_neq_skip(&mut self, reg: u8, val: u8)
        requires
            old(self).wf(),
            reg < 16,
            old(self).pc <= 0xFFFD,
        ensures
            only_pc_changed(*old(self), *final(self)),
            final(self).pc == (if old(self).regs@[reg as int] != val {
                (old(self).pc + 2) as u16
            } else {
                old(self).pc
            }),
    {
        if self.regs[reg as usize] != val {
            self.pc = self.pc + 2;
        }
    }

    /// 5xy0: skip the next instruction if Vx equals Vy.
    pub fn op_req_skip(&mut self, reg_x: u8, reg_y: u8)
        requires
            old(self).wf(),
            reg_x < 16,
            reg_y < 16,
            old(self).pc <= 0xFFFD,
        ensures
            only_pc_changed(*old(self), *final(self)),
            final(self).pc == (if old(self).regs@[reg_x as int] == old(self).regs@[reg_y as int] {
                (old(self).pc + 2) as u16
            } else {
                old(self).pc
            }),
    {
        if self.regs[reg_x as usize] == self.regs[reg_y as usize] {
            self.pc = self.pc + 2;
        }
    }

    /// 9xy0: skip the next instruction if Vx differs from Vy.
    pub fn op_rneq_skip(&mut self, reg_x: u8, reg_y: u8)
        requires
            old(self).wf(),
            reg_x < 16,
            reg_y < 16,
            old(self).pc <= 0xFFFD,
        ensures
            only_pc_changed(*old(self), *final(self)),
            final(self).pc == (if old(self).regs@[reg_x as int] != old(self).regs@[reg_y as int] {
                (old(self).pc + 2) as u16
            } else {
                old(self).pc
            }),
    {
        if self.regs[reg_x as usize] != self.regs[reg_y as usize] {
            self.pc = self.pc + 2;
        }
    }

    /// 6xnn: Vx := nn.
    pub fn op_set_reg(&mut self, reg: u8, val: u8)
        requires
            old(self).wf(),
            reg < 16,
        ensures
            final(self).wf(),
            only_regs_changed(*old(self), *final(self)),
            final(self).regs@ == old(self).regs@.update(reg as int, val),
    {
        self.regs[reg as usize] = val;
    }

    /// 7xnn: Vx := Vx + nn, wrapping on 8-bit overflow, no flag written.
    pub fn op_add_reg(&mut self, reg: u8, val: u8)
        requires
            old(self).wf(),
            reg < 16,
        ensures
            final(self).wf(),
            only_regs_changed(*old(self), *final(self)),
            final(self).regs@ == old(self).regs@.update(
                reg as int,
                ((old(self).regs@[reg as int] + val) % 256) as u8,
            ),
    {
        let sum: u16 = self.regs[reg as usize] as u16 + val as u16;
        self.regs[reg as usize] = (sum % 256) as u8;
    }

    /// 8xy0: Vx := Vy.
    pub fn op_set(&mut self, reg_x: u8, reg_y: u8)
        requires
            old(self).wf(),
            reg_x < 16,
            reg_y < 16,
        ensures
            final(self).wf(),
            only_regs_changed(*old(self), *final(self)),
            final(self).regs@ == old(self).regs@.update(
                reg_x as int,
                old(self).regs@[reg_y as int],
            ),
    {
        self.regs[reg_x as usize] = self.regs[reg_y as usize];
    }

    /// 8xy1: Vx := Vx | Vy.
    pub fn op_or(&mut self, reg_x: u8, reg_y: u8)
        requires
            old(self).wf(),
            reg_x < 16,
            reg_y < 16,
        ensures
            final(self).wf(),
            only_regs_changed(*old(self), *final(self)),
            final(self).regs@ == old(self).regs@.update(
                reg_x as int,
                old(self).regs@[reg_x as int] | old(self).regs@[reg_y as int],
            ),
    {
        let v = self.regs[reg_x as usize] | self.regs[reg_y as usize];
        self.regs[reg_x as usize] = v;
    }

    /// 8xy2: Vx := Vx & Vy.
    pub fn op_and(&mut self, reg_x: u8, reg_y: u8)
        requires
            old(self).wf(),
            reg_x < 16,
            reg_y < 16,
        ensures
            final(self).wf(),
            only_regs_changed(*old(self), *final(self)),
            final(self).regs@ == old(self).regs@.update(
                reg_x as int,
                old(self).regs@[reg_x as int] & old(self).regs@[reg_y as int],
            ),
    {
        let v = self.regs[reg_x as usize] & self.regs[reg_y as usize];
        self.regs[reg_x as usize] = v;
    }

    /// 8xy3: Vx := Vx ^ Vy.
    pub fn op_xor(&mut self, reg_x: u8, reg_y: u8)
        requires
            old(self).wf(),
            reg_x < 16,
            reg_y < 16,
        ensures
            final(self).wf(),
            only_regs_changed(*old(self), *final(self)),
            final(self).regs@ == old(self).regs@.update(
                reg_x as int,
                old(self).regs@[reg_x as int] ^ old(self).regs@[reg_y as int],
            ),
    {
        let v = self.regs[reg_x as usize] ^ self.regs[reg_y as usize];
        self.regs[reg_x as usize] = v;
    }

    /// 8xy4: Vx := Vx + Vy with the carry in the flag register.
    pub fn op_add(&mut self, reg_x: u8, reg_y: u8)
        requires
            old(self).wf(),
            reg_x < 16,
            reg_y < 16,
        ensures
            final(self).wf(),
            only_regs_changed(*old(self), *final(self)),
            final(self).regs@ == crate::ops::add_spec(old(self).regs@, reg_x as int, reg_y as int),
    {
        let sum: u16 = self.regs[reg_x as usize] as u16 + self.regs[reg_y as usize] as u16;
        self.regs[reg_x as usize] = (sum % 256) as u8;
        self.regs[15] = if sum >= 256 {
            1
        } else {
            0
        };
    }

    /// 8xy5: Vx := Vx - Vy with the borrow in the flag register
    /// (0 on underflow, 1 otherwise).
    pub fn op_sub(&mut self, reg_x: u8, reg_y: u8)
        requires
            old(self).wf(),
            reg_x < 16,
            reg_y < 16,
        ensures
            final(self).wf(),
            only_regs_changed(*old(self), *final(self)),
            final(self).regs@ == crate::ops::sub_spec(old(self).regs@, reg_x as int, reg_y as int),
    {
        let a = self.regs[reg_x as usize];
        let b = self.regs[reg_y as usize];
        if a >= b {
            self.regs[reg_x as usize] = a - b;
            self.regs[15] = 1;
        } else {
            let d: u16 = a as u16 + 256 - b as u16;
            self.regs[reg_x as usize] = d as u8;
            self.regs[15] = 0;
        }
    }

    /// 8xy7: Vx := Vy - Vx; on underflow Vx is left unchanged and the flag
    /// register takes 1, otherwise the flag register takes 0.
    pub fn op_rsub(&mut self, reg_x: u8, reg_y: u8)
        requires
            old(self).wf(),
            reg_x < 16,
            reg_y < 16,
        ensures
            final(self).wf(),
            only_regs_changed(*old(self), *final(self)),
            final(self).regs@ == crate::ops::rsub_spec(old(self).regs@, reg_x as int, reg_y as int),
    {
        let a = self.regs[reg_x as usize];
        let b = self.regs[reg_y as usize];
        if b >= a {
            self.regs[reg_x as usize] = b - a;
            self.regs[15] = 0;
        } else {
            self.regs[15] = 1;
        }
    }

    /// 8xy6: right shift; see `shr_spec` for the exact update order.
    pub fn op_shift_r(&mut self, reg_x: u8, reg_y: u8, swap: bool)
        requires
            old(self).wf(),
            reg_x < 16,
            reg_y < 16,
        ensures
            final(self).wf(),
            only_regs_changed(*old(self), *final(self)),
            final(self).regs@ == crate::ops::shr_spec(
                old(self).regs@,
                reg_x as int,
                reg_y as int,
                swap,
            ),
    {
        if swap {
            self.regs[reg_x as usize] = self.regs[reg_y as usize];
        }
        self.regs[15] = self.regs[reg_x as usize] & 1;
        let v = self.regs[reg_x as usize];
        self.regs[reg_x as usize] = v >> 1u8;
    }

    /// 8xyE: left shift; see `shl_spec` for the exact update order.
    pub fn op_shift_l(&mut self, reg_x: u8, reg_y: u8, swap: bool)
        requires
            old(self).wf(),
            reg_x < 16,
            reg_y < 16,
        ensures
            final(self).wf(),
            only_regs_changed(*old(self), *final(self)),
            final(self).regs@ == crate::ops::shl_spec(
                old(self).regs@,
                reg_x as int,
                reg_y as int,
                swap,
            ),
    {
        if swap {
            self.regs[reg_x as usize] = self.regs[reg_y as usize];
        }
        self.regs[15] = (self.regs[reg_x as usize] & 0x80) >> 7u8;
        let v = self.regs[reg_x as usize];
        self.regs[reg_x as usize] = v << 1u8;
    }

    /// Annn: index register := nnn.
    pub fn op_set_ireg(&mut self, val: u16)
        ensures
            only_reg_i_changed(*old(self), *final(self)),
            final(self).reg_i == val,
    {
        self.reg_i = val;
    }

    /// Bnnn, plain form: program counter := nnn + V0.
    pub fn op_jump_off(&mut self, address: u16)
        requires
            old(self).wf(),
            address <= 0xFFF,
        ensures
            only_pc_changed(*old(self), *final(self)),
            final(self).pc == address + old(self).regs@[0],
    {
        self.pc = address + self.regs[0] as u16;
    }

    /// Bnnn, complex-jump form: program counter := nnn + Vx.
    pub fn op_jump_coff(&mut self, address: u16, reg: u8)
        requires
            old(self).wf(),
            address <= 0xFFF,
            reg < 16,
        ensures
            only_pc_changed(*old(self), *final(self)),
            final(self).pc == address + old(self).regs@[reg as int],
    {
        self.pc = address + self.regs[reg as usize] as u16;
    }

    /// Cxnn: Vx := random byte & nn. Nothing is known of the drawn byte,
    /// so all the contract pins down is the mask and that no other
    /// register moves.
    pub fn op_rng(&mut self, reg: u8, val: u8)
        requires
            old(self).wf(),
            reg < 16,
        ensures
            final(self).wf(),
            only_regs_changed(*old(self), *final(self)),
            exists|b: u8| final(self).regs@ == old(self).regs@.update(reg as int, #[trigger] (b & val)),
            final(self).regs@[reg as int] & !val == 0,
    {
        let b = random_byte();
        let masked = b & val;
        self.regs[reg as usize] = masked;
        proof {
            assert(masked & !val == 0) by (bit_vector)
                requires
                    masked == b & val,
            ;
            assert(self.regs@ == old(self).regs@.update(reg as int, b & val));
        }
    }

    /// Ex9E: skip the next instruction if a key is pressed and its value
    /// equals Vx.
    pub fn op_key_skip(&mut self, reg: u8)
        requires
            old(self).wf(),
            reg < 16,
            old(self).pc <= 0xFFFD,
        ensures
            only_pc_changed(*old(self), *final(self)),
            final(self).pc == (if old(self).key == Some(old(self).regs@[reg as int]) {
                (old(self).pc + 2) as u16
            } else {
                old(self).pc
            }),
    {
        match self.key {
            Some(k) => {
                if k == self.regs[reg as usize] {
                    self.pc = self.pc + 2;
                }
            },
            None => {},
        }
    }

    /// ExA1: skip the next instruction if no key is pressed, or the
    /// pressed key's value differs from Vx.
    pub fn op_nkey_skip(&mut self, reg: u8)
        requires
            old(self).wf(),
            reg < 16,
            old(self).pc <= 0xFFFD,
        ensures
            only_pc_changed(*old(self), *final(self)),
            final(self).pc == (if old(self).key == Some(old(self).regs@[reg as int]) {
                old(self).pc
            } else {
                (old(self).pc + 2) as u16
            }),
    {
        match self.key {
            Some(k) => {
                if k != self.regs[reg as usize] {
                    self.pc = self.pc + 2;
                }
            },
            None => {
                self.pc = self.pc + 2;
            },
        }
    }

    /// Fx07: Vx := delay timer.
    pub fn op_check_timer(&mut self, reg: u8)
        requires
            old(self).wf(),
            reg < 16,
        ensures
            final(self).wf(),
            only_regs_changed(*old(self), *final(self)),
            final(self).regs@ == old(self).regs@.update(reg as int, old(self).delay_timer),
    {
        self.regs[reg as usize] = self.delay_timer;
    }

    /// Fx15: delay timer := Vx.
    pub fn op_set_dtimer(&mut self, reg: u8)
        requires
            old(self).wf(),
            reg < 16,
        ensures
            only_delay_changed(*old(self), *final(self)),
            final(self).delay_timer == old(self).regs@[reg as int],
    {
        self.delay_timer = self.regs[reg as usize];
    }

    /// Fx18: sound timer := Vx.
    pub fn op_set_stimer(&mut self, reg: u8)
        requires
            old(self).wf(),
            reg < 16,
        ensures
            only_sound_changed(*old(self), *final(self)),
            final(self).sound_timer == old(self).regs@[reg as int],
    {
        self.sound_timer = self.regs[reg as usize];
    }

    /// Fx1E: index register += Vx, saturating at the top of its 16-bit
    /// range (the register is not masked to 12 bits; a later access
    /// through an out-of-range value faults). The flag register takes 1
    /// when the new value exceeds 0x1000 and is left alone otherwise —
    /// it is not reset to 0.
    pub fn op_add_ireg(&mut self, reg: u8)
        requires
            old(self).wf(),
            reg < 16,
        ensures
            final(self).wf(),
            only_reg_i_and_regs_changed(*old(self), *final(self)),
            final(self).reg_i == (if old(self).reg_i + old(self).regs@[reg as int] > 0xFFFF {
                0xFFFFu16
            } else {
                (old(self).reg_i + old(self).regs@[reg as int]) as u16
            }),
            final(self).regs@ == (if final(self).reg_i > 0x1000 {
                old(self).regs@.update(15, 1u8)
            } else {
                old(self).regs@
            }),
    {
        let sum: u32 = self.reg_i as u32 + self.regs[reg as usize] as u32;
        self.reg_i = if sum > 0xFFFF {
            0xFFFF
        } else {
            sum as u16
        };
        if self.reg_i > 0x1000 {
            self.regs[15] = 1;
        }
    }

    /// Fx0A: if a key is pressed, Vx := its value; otherwise rewind the
    /// program counter by 2 so the same instruction re-executes next cycle.
    pub fn op_get_key(&mut self, reg: u8)
        requires
            old(self).wf(),
            reg < 16,
            old(self).pc >= 2,
        ensures
            final(self).wf(),
            match old(self).key {
                Some(k) => only_regs_changed(*old(self), *final(self)) && final(self).regs@ == old(self).regs@.update(reg as int, k),
                None => only_pc_changed(*old(self), *final(self)) && final(self).pc == old(self).pc - 2,
            },
    {
        match self.key {
            Some(k) => {
                self.regs[reg as usize] = k;
            },
            None => {
                self.pc = self.pc - 2;
            },
        }
    }

    /// Fx29: index register := glyph table base + 5 bytes per glyph,
    /// selecting the glyph of the low nibble of Vx.
    pub fn op_font_char(&mut self, reg: u8)
        requires
            old(self).wf(),
            reg < 16,
        ensures
            only_reg_i_changed(*old(self), *final(self)),
            final(self).reg_i == 80 + (old(self).regs@[reg as int] & 0xF) * 5,
    {
        let v = self.regs[reg as usize];
        let nib = v & 0x0F;
        proof {
            assert(nib < 16) by (bit_vector)
                requires
                    nib == v & 0x0F,
            ;
        }
        self.reg_i = FONT_OFFSET as u16 + (nib as u16) * 5;
    }

    /// Fx33: store the three decimal digits of Vx at the index register
    /// (hundreds first). The access is bounds-checked; an out-of-range
    /// index register faults and changes nothing.
    pub fn op_decimals(&mut self, reg: u8) -> (r: Result<(), Fault>)
        requires
            old(self).wf(),
            reg < 16,
        ensures
            final(self).wf(),
            only_mem_changed(*old(self), *final(self)),
            old(self).reg_i + 2 < 4096 ==> r == Ok::<(), Fault>(()) && final(self).mem@ == old(self).mem@.update(old(self).reg_i as int, ((old(self).regs@[reg as int] as int) / 100) as u8)
                .update(
                old(self).reg_i + 1,
                (((old(self).regs@[reg as int] as int) % 100) / 10) as u8,
            ).update(old(self).reg_i + 2, ((old(self).regs@[reg as int] as int) % 10) as u8),
            old(self).reg_i + 2 >= 4096 ==> r == Err::<(), Fault>(Fault::AddressOutOfRange) && old(self).machine_eq(*final(self)),
    {
        if self.reg_i as usize + 2 >= MEM_SIZE {
            return Err(Fault::AddressOutOfRange);
        }
        let n = self.regs[reg as usize];
        let i = self.reg_i as usize;
        self.mem[i] = n / 100;
        self.mem[i + 1] = (n % 100) / 10;
        self.mem[i + 2] = n % 10;
        Ok(())
    }

    /// Fx55: store V0..Vx inclusive into memory at the index register.
    /// The whole range is bounds-checked before any byte is written; an
    /// out-of-range access faults and changes nothing.
    pub fn op_store(&mut self, reg: u8) -> (r: Result<(), Fault>)
        requires
            old(self).wf(),
            reg < 16,
        ensures
            final(self).wf(),
            only_mem_changed(*old(self), *final(self)),
            old(self).reg_i + reg < 4096 ==> r == Ok::<(), Fault>(()) && (forall|j: int|
                0 <= j <= reg ==> final(self).mem@[old(self).reg_i + j] == old(self).regs@[j]) && (
            forall|a: int|
                0 <= a < 4096 && !(old(self).reg_i <= a <= old(self).reg_i + reg) ==> final(self).mem@[a] == #[trigger] old(self).mem@[a]),
            old(self).reg_i + reg >= 4096 ==> r == Err::<(), Fault>(Fault::AddressOutOfRange)
                && old(self).machine_eq(*final(self)),
    {
        if self.reg_i as usize + reg as usize >= MEM_SIZE {
            return Err(Fault::AddressOutOfRange);
        }
        let i = self.reg_i as usize;
        let mut j: usize = 0;
        while j <= reg as usize
            invariant
                self.wf(),
                reg < 16,
                j <= reg as usize + 1,
                i == old(self).reg_i,
                i + reg < 4096,
                only_mem_changed(*old(self), *self),
                forall|t: int| 0 <= t < j ==> self.mem@[i + t] == old(self).regs@[t],
                forall|a: int|
                    0 <= a < 4096 && !(i <= a < i + j) ==> self.mem@[a] == #[trigger] old(self).mem@[a],
            decreases reg as usize + 1 - j,
        {
            self.mem[i + j] = self.regs[j];
            j = j + 1;
        }
        Ok(())
    }

    /// Fx65: load V0..Vx inclusive from memory at the index register.
    /// The whole range is bounds-checked before any register is written;
    /// an out-of-range access faults and changes nothing.
    pub fn op_load(&mut self, reg: u8) -> (r: Result<(), Fault>)
        requires
            old(self).wf(),
            reg < 16,
        ensures
            final(self).wf(),
            only_regs_changed(*old(self), *final(self)),
            old(self).reg_i + reg < 4096 ==> r == Ok::<(), Fault>(()) && (forall|j: int|
                0 <= j <= reg ==> final(self).regs@[j] == old(self).mem@[old(self).reg_i + j]) && (
            forall|j: int| reg < j < 16 ==> final(self).regs@[j] == #[trigger] old(self).regs@[j]),
            old(self).reg_i + reg >= 4096 ==> r == Err::<(), Fault>(Fault::AddressOutOfRange)
                && old(self).machine_eq(*final(self)),
    {
        if self.reg_i as usize + reg as usize >= MEM_SIZE {
            return Err(Fault::AddressOutOfRange);
        }
        let i = self.reg_i as usize;
        let mut j: usize = 0;
        while j <= reg as usize
            invariant
                self.wf(),
                reg < 16,
                j <= reg as usize + 1,
                i == old(self).reg_i,
                i + reg < 4096,
                only_regs_changed(*old(self), *self),
                forall|t: int| 0 <= t < j ==> self.regs@[t] == old(self).mem@[i + t],
                forall|t: int| j <= t < 16 ==> self.regs@[t] == #[trigger] old(self).regs@[t],
            decreases reg as usize + 1 - j,
        {
            self.regs[j] = self.mem[i + j];
            j = j + 1;
        }
        Ok(())
    }
}

impl Emulator {
    /// Dxyn: draw an `n`-row sprite read from the index register at start
    /// position (Vx mod 64, Vy mod 32). The start position wraps; the
    /// sprite body is clipped at the right and bottom edges and never
    /// wraps. Set sprite bits flip their pixels; the flag register takes 1
    /// exactly when some flipped pixel was on before the draw, else 0. A
    /// sprite row at an out-of-range memory address faults before anything
    /// is drawn.
    pub fn op_display(&mut self, reg_x: u8, reg_y: u8, val: u8) -> (r: Result<(), Fault>)
        requires
            old(self).wf(),
            reg_x < 16,
            reg_y < 16,
            val < 16,
        ensures
            final(self).wf(),
            only_display_and_regs_changed(*old(self), *final(self)),
            ({
                let px = old(self).regs@[reg_x as int] % 64;
                let py = old(self).regs@[reg_y as int] % 32;
                let i = old(self).reg_i as int;
                if draw_oob(i, py as int, val as int) {
                    r == Err::<(), Fault>(Fault::AddressOutOfRange) && old(self).machine_eq(
                        *final(self),
                    )
                } else {
                    r == Ok::<(), Fault>(()) && final(self).display@ == draw_display(
                        old(self).display@,
                        old(self).mem@,
                        i,
                        px as int,
                        py as int,
                        val as int,
                    ) && final(self).regs@ == old(self).regs@.update(
                        15,
                        if draw_collides(
                            old(self).display@,
                            old(self).mem@,
                            i,
                            px as int,
                            py as int,
                            val as int,
                        ) {
                            1u8
                        } else {
                            0u8
                        },
                    )
                }
            }),
    {
        let px = self.regs[reg_x as usize] % 64;
        let py = self.regs[reg_y as usize] % 32;
        let i = self.reg_i as usize;
        let rows: u8 = if val > 32 - py {
            32 - py
        } else {
            val
        };
        proof {
            assert(rows as int == rows_drawn(py as int, val as int));
        }
        if rows > 0 && i + rows as usize - 1 >= MEM_SIZE {
            return Err(Fault::AddressOutOfRange);
        }
        let cols: u8 = if px > 56 {
            64 - px
        } else {
            8
        };
        self.regs[15] = 0;
        proof {
            lemma_draw_zero_rows(
                old(self).display@,
                old(self).mem@,
                i as int,
                px as int,
                py as int,
            );
        }
        let mut ry: u8 = 0;
        while ry < rows
            invariant
                old(self).wf(),
                self.wf(),
                only_display_and_regs_changed(*old(self), *self),
                ry <= rows,
                reg_x < 16,
                reg_y < 16,
                val < 16,
                px == old(self).regs@[reg_x as int] % 64,
                py == old(self).regs@[reg_y as int] % 32,
                i == old(self).reg_i,
                px < 64,
                py < 32,
                rows as int == rows_drawn(py as int, val as int),
                rows > 0 ==> i + rows - 1 < 4096,
                cols as int == (if px as int + 8 <= 64 {
                    8int
                } else {
                    64 - px as int
                }),
                self.display@ == draw_display(
                    old(self).display@,
                    old(self).mem@,
                    i as int,
                    px as int,
                    py as int,
                    ry as int,
                ),
                self.regs@ == old(self).regs@.update(
                    15,
                    if draw_collides(
                        old(self).display@,
                        old(self).mem@,
                        i as int,
                        px as int,
                        py as int,
                        ry as int,
                    ) {
                        1u8
                    } else {
                        0u8
                    },
                ),
            decreases rows - ry,
        {
            let sprite = self.mem[i + ry as usize];
            proof {
                lemma_partial_zero_cols(
                    old(self).display@,
                    old(self).mem@,
                    i as int,
                    px as int,
                    py as int,
                    ry as int,
                );
            }
            let mut cx: u8 = 0;
            while cx < cols
                invariant
                    old(self).wf(),
                    self.wf(),
                    only_display_and_regs_changed(*old(self), *self),
                    cx <= cols,
                    reg_x < 16,
                    reg_y < 16,
                    val < 16,
                    px == old(self).regs@[reg_x as int] % 64,
                    py == old(self).regs@[reg_y as int] % 32,
                    i == old(self).reg_i,
                    px < 64,
                    py < 32,
                    rows as int == rows_drawn(py as int, val as int),
                    ry < rows,
                    i + rows - 1 < 4096,
                    cols as int == (if px as int + 8 <= 64 {
                        8int
                    } else {
                        64 - px as int
                    }),
                    sprite == old(self).mem@[i + ry],
                    self.display@ == draw_display_partial(
                        old(self).display@,
                        old(self).mem@,
                        i as int,
                        px as int,
                        py as int,
                        ry as int,
                        cx as int,
                    ),
                    self.regs@ == old(self).regs@.update(
                        15,
                        if collides_before(
                            old(self).display@,
                            old(self).mem@,
                            i as int,
                            px as int,
                            py as int,
                            ry as int,
                            cx as int,
                        ) {
                            1u8
                        } else {
                            0u8
                        },
                    ),
                decreases cols - cx,
            {
                let xx = (px + cx) as usize;
                let yy = (py + ry) as usize;
                let idx = xx * 32 + yy;
                proof {
                    lemma_pix_decomp(xx as int, yy as int);
                }
                let cur = self.display[idx];
                if sprite & (0x80u8 >> cx) != 0 {
                    proof {
                        lemma_partial_step_set(
                            old(self).display@,
                            old(self).mem@,
                            i as int,
                            px as int,
                            py as int,
                            ry as int,
                            cx as int,
                        );
                    }
                    if cur == 1 {
                        self.regs[15] = 1;
                        proof {
                            assert(self.regs@ =~= old(self).regs@.update(15, 1u8));
                        }
                    }
                    self.display[idx] = if cur == 1 {
                        0
                    } else {
                        1
                    };
                } else {
                    proof {
                        lemma_partial_step_clear(
                            old(self).display@,
                            old(self).mem@,
                            i as int,
                            px as int,
                            py as int,
                            ry as int,
                            cx as int,
                        );
                    }
                }
                cx = cx + 1;
            }
            proof {
                lemma_partial_all_cols(
                    old(self).display@,
                    old(self).mem@,
                    i as int,
                    px as int,
                    py as int,
                    ry as int,
                    cols as int,
                );
            }
            ry = ry + 1;
        }
        proof {
            lemma_draw_row_clip(
                old(self).display@,
                old(self).mem@,
                i as int,
                px as int,
                py as int,
                val as int,
            );
        }
        Ok(())
    }
}

impl Emulator {
    /// The 8xy_ family: register moves, bitwise operations, arithmetic
    /// with carry or borrow, and shifts, selected on the low nibble.
    #[verifier::rlimit(100)]
    #[verifier::spinoff_prover]
    fn dispatch_alu(&mut self, inst: u16) -> (r: Result<(), Fault>)
        requires
            old(self).wf(),
            inst & 0xF000 == 0x8000,
        ensures
            final(self).wf(),
            cycle_dispatch(*old(self), *final(self), r, inst),
            old(self).same_config(*final(self)),
            final(self).key == old(self).key,
            final(self).frame_count == old(self).frame_count,
            final(self).state == old(self).state,
            r is Ok,
    {
        let x = ((inst & 0x0F00) >> 8u16) as u8;
        let y = ((inst & 0x00F0) >> 4u16) as u8;
        let n = (inst & 0x000F) as u8;
        proof {
            assert((((inst & 0x0F00) >> 8u16) as u8) < 16) by (bit_vector);
            assert((((inst & 0x00F0) >> 4u16) as u8) < 16) by (bit_vector);
            assert(((inst & 0x000F) as u8) < 16) by (bit_vector);
            assert(!(inst == 0x00E0 || inst == 0x00EE)) by (bit_vector)
                requires
                    inst & 0xF000 == 0x8000,
            ;
        }
        let swap = self.shift_swap;
        match n {
            0x0 => {
                self.op_set(x, y);
                Ok(())
            },
            0x1 => {
                self.op_or(x, y);
                Ok(())
            },
            0x2 => {
                self.op_and(x, y);
                Ok(())
            },
            0x3 => {
                self.op_xor(x, y);
                Ok(())
            },
            0x4 => {
                self.op_add(x, y);
                Ok(())
            },
            0x5 => {
                self.op_sub(x, y);
                Ok(())
            },
            0x6 => {
                self.op_shift_r(x, y, swap);
                Ok(())
            },
            0x7 => {
                self.op_rsub(x, y);
                Ok(())
            },
            0xE => {
                self.op_shift_l(x, y, swap);
                Ok(())
            },
            _ => {
                self.last_unimplemented = Some(inst);
                Ok(())
            },
        }
    }

    /// The Ex__ family: the two key-dependent skips, selected on the low
    /// byte.
    #[verifier::rlimit(100)]
    #[verifier::spinoff_prover]
    fn dispatch_key(&mut self, inst: u16) -> (r: Result<(), Fault>)
        requires
            old(self).wf(),
            inst & 0xF000 == 0xE000,
            old(self).pc <= 0xFFFD,
        ensures
            final(self).wf(),
            cycle_dispatch(*old(self), *final(self), r, inst),
            old(self).same_config(*final(self)),
            final(self).key == old(self).key,
            final(self).frame_count == old(self).frame_count,
            final(self).state == old(self).state,
            r is Ok,
    {
        let x = ((inst & 0x0F00) >> 8u16) as u8;
        let nn = (inst & 0x00FF) as u8;
        proof {
            assert((((inst & 0x0F00) >> 8u16) as u8) < 16) by (bit_vector);
            assert(!(inst == 0x00E0 || inst == 0x00EE)) by (bit_vector)
                requires
                    inst & 0xF000 == 0xE000,
            ;
        }
        match nn {
            0x9E => {
                self.op_key_skip(x);
                Ok(())
            },
            0xA1 => {
                self.op_nkey_skip(x);
                Ok(())
            },
            _ => {
                self.last_unimplemented = Some(inst);
                Ok(())
            },
        }
    }

    /// The Fx__ family: timers, index-register arithmetic, the blocking
    /// key wait, glyph lookup, decimal conversion and the register
    /// store/load block transfers, selected on the low byte.
    #[verifier::rlimit(100)]
    #[verifier::spinoff_prover]
    fn dispatch_misc(&mut self, inst: u16) -> (r: Result<(), Fault>)
        requires
            old(self).wf(),
            inst & 0xF000 == 0xF000,
            old(self).pc >= 2,
        ensures
            final(self).wf(),
            cycle_dispatch(*old(self), *final(self), r, inst),
            old(self).same_config(*final(self)),
            final(self).key == old(self).key,
            final(self).frame_count == old(self).frame_count,
            r is Ok ==> final(self).state == old(self).state,
            r is Err ==> final(self).state is Paused,
    {
        let x = ((inst & 0x0F00) >> 8u16) as u8;
        let nn = (inst & 0x00FF) as u8;
        proof {
            assert((((inst & 0x0F00) >> 8u16) as u8) < 16) by (bit_vector);
            assert(!(inst == 0x00E0 || inst == 0x00EE)) by (bit_vector)
                requires
                    inst & 0xF000 == 0xF000,
            ;
        }
        match nn {
            0x07 => {
                self.op_check_timer(x);
                Ok(())
            },
            0x15 => {
                self.op_set_dtimer(x);
                Ok(())
            },
            0x18 => {
                self.op_set_stimer(x);
                Ok(())
            },
            0x1E => {
                self.op_add_ireg(x);
                Ok(())
            },
            0x0A => {
                self.op_get_key(x);
                Ok(())
            },
            0x29 => {
                self.op_font_char(x);
                Ok(())
            },
            0x33 => {
                match self.op_decimals(x) {
                    Ok(()) => Ok(()),
                    Err(f) => {
                        self.state = RunState::Paused;
                        Err(f)
                    },
                }
            },
            0x55 => {
                match self.op_store(x) {
                    Ok(()) => Ok(()),
                    Err(f) => {
                        self.state = RunState::Paused;
                        Err(f)
                    },
                }
            },
            0x65 => {
                match self.op_load(x) {
                    Ok(()) => Ok(()),
                    Err(f) => {
                        self.state = RunState::Paused;
                        Err(f)
                    },
                }
            },
            _ => {
                self.last_unimplemented = Some(inst);
                Ok(())
            },
        }
    }

    /// One fetch-decode-execute cycle, the machine's unit of work: fetch
    /// the word at the program counter (a fetch outside memory is a fatal
    /// fault), advance the counter past it, and dispatch on the opcode.
    /// The whole effect is pinned down by `cycle_rel`. A fatal fault
    /// additionally pauses the machine; an unimplemented instruction is
    /// reported in `last_unimplemented` and skipped.
    #[verifier::rlimit(100)]
    #[verifier::spinoff_prover]
    pub fn internal_step(&mut self) -> (r: Result<(), Fault>)
        requires
            old(self).wf(),
        ensures
            final(self).wf(),
            cycle_rel(*old(self), *final(self), r),
            old(self).same_config(*final(self)),
            final(self).key == old(self).key,
            final(self).frame_count == old(self).frame_count,
            r is Ok ==> final(self).state == old(self).state,
            r is Err ==> final(self).state is Paused,
    {
        if self.pc as usize + 1 >= MEM_SIZE {
            self.state = RunState::Paused;
            return Err(Fault::AddressOutOfRange);
        }
        let inst = self.curr_inst();
        self.pc = self.pc + 2;
        let ghost a2 = *self;

        let x = ((inst & 0x0F00) >> 8u16) as u8;
        let y = ((inst & 0x00F0) >> 4u16) as u8;
        let n = (inst & 0x000F) as u8;
        let nn = (inst & 0x00FF) as u8;
        let nnn = inst & 0x0FFF;
        proof {
            assert((((inst & 0x0F00) >> 8u16) as u8) < 16) by (bit_vector);
            assert((((inst & 0x00F0) >> 4u16) as u8) < 16) by (bit_vector);
            assert(((inst & 0x000F) as u8) < 16) by (bit_vector);
            assert((inst & 0x0FFF) <= 0xFFF) by (bit_vector);
            assert(0x00E0u16 & 0xF000u16 == 0x0000u16) by (bit_vector);
            assert(0x00EEu16 & 0xF000u16 == 0x0000u16) by (bit_vector);
        }

        match inst & 0xF000 {
            0x0000 => {
                if inst == 0x00E0 {
                    self.op_clear_screen();
                    proof {
                        assert(cycle_dispatch(a2, *self, Ok::<(), Fault>(()), inst));
                    }
                    Ok(())
                } else if inst == 0x00EE {
                    match self.op_ret() {
                        Ok(()) => {
                            proof {
                                assert(cycle_dispatch(a2, *self, Ok::<(), Fault>(()), inst));
                            }
                            Ok(())
                        },
                        Err(f) => {
                            self.state = RunState::Paused;
                            proof {
                                assert(cycle_dispatch(a2, *self, Err::<(), Fault>(f), inst));
                            }
                            Err(f)
                        },
                    }
                } else {
                    self.last_unimplemented = Some(inst);
                    proof {
                        assert(cycle_dispatch(a2, *self, Ok::<(), Fault>(()), inst));
                    }
                    Ok(())
                }
            },
            0x1000 => {
                self.op_jump(nnn);
                proof {
                    assert(cycle_dispatch(a2, *self, Ok::<(), Fault>(()), inst));
                }
                Ok(())
            },
            0x2000 => {
                self.op_subroutine(nnn);
                proof {
                    assert(cycle_dispatch(a2, *self, Ok::<(), Fault>(()), inst));
                }
                Ok(())
            },
            0x3000 => {
                self.op_eq_skip(x, nn);
                proof {
                    assert(cycle_dispatch(a2, *self, Ok::<(), Fault>(()), inst));
                }
                Ok(())
            },
            0x4000 => {
                self.op_neq_skip(x, nn);
                proof {
                    assert(cycle_dispatch(a2, *self, Ok::<(), Fault>(()), inst));
                }
                Ok(())
            },
            0x5000 => {
                self.op_req_skip(x, y);
                proof {
                    assert(cycle_dispatch(a2, *self, Ok::<(), Fault>(()), inst));
                }
                Ok(())
            },
            0x6000 => {
                self.op_set_reg(x, nn);
                proof {
                    assert(cycle_dispatch(a2, *self, Ok::<(), Fault>(()), inst));
                }
                Ok(())
            },
            0x7000 => {
                self.op_add_reg(x, nn);
                proof {
                    assert(cycle_dispatch(a2, *self, Ok::<(), Fault>(()), inst));
                }
                Ok(())
            },
            0x8000 => self.dispatch_alu(inst),
            0x9000 => {
                self.op_rneq_skip(x, y);
                proof {
                    assert(cycle_dispatch(a2, *self, Ok::<(), Fault>(()), inst));
                }
                Ok(())
            },
            0xA000 => {
                self.op_set_ireg(nnn);
                proof {
                    assert(cycle_dispatch(a2, *self, Ok::<(), Fault>(()), inst));
                }
                Ok(())
            },
            0xB000 => {
                if !self.complex_jump {
                    self.op_jump_off(nnn);
                } else {
                    self.op_jump_coff(nnn, x);
                }
                proof {
                    assert(cycle_dispatch(a2, *self, Ok::<(), Fault>(()), inst));
                }
                Ok(())
            },
            0xC000 => {
                self.op_rng(x, nn);
                proof {
                    let rb = choose|rb: u8|
                        self.regs@ == a2.regs@.update(x as int, #[trigger] (rb & nn));
                    assert(self.regs@ == a2.regs@.update(nib_x(inst) as int, rb & imm_nn(inst)));
                    assert(cycle_dispatch(a2, *self, Ok::<(), Fault>(()), inst));
                }
                Ok(())
            },
            0xD000 => {
                match self.op_display(x, y, n) {
                    Ok(()) => {
                        proof {
                            assert(cycle_dispatch(a2, *self, Ok::<(), Fault>(()), inst));
                        }
                        Ok(())
                    },
                    Err(f) => {
                        self.state = RunState::Paused;
                        proof {
                            assert(cycle_dispatch(a2, *self, Err::<(), Fault>(f), inst));
                        }
                        Err(f)
                    },
                }
            },
            0xE000 => self.dispatch_key(inst),
            0xF000 => self.dispatch_misc(inst),
            _ => {
                self.last_unimplemented = Some(inst);
                proof {
                    assert(cycle_dispatch(a2, *self, Ok::<(), Fault>(()), inst));
                }
                Ok(())
            },
        }
    }

    /// Advances the machine by one rendered frame: each nonzero timer is
    /// decremented by 1, then `cpf` instruction cycles run. A fatal fault
    /// stops the frame's remaining cycles, leaves the machine paused and is
    /// returned; an unimplemented instruction does not. The frame counter
    /// grows by one either way (saturating at its top). Whether to step at
    /// all while paused or before a program is loaded is the caller's
    /// choice; the machine itself does not refuse.
    pub fn step(&mut self) -> (r: Option<Fault>)
        requires
            old(self).wf(),
        ensures
            final(self).wf(),
            old(self).same_config(*final(self)),
            final(self).key == old(self).key,
            final(self).frame_count == (if old(self).frame_count == u128::MAX {
                old(self).frame_count
            } else {
                (old(self).frame_count + 1) as u128
            }),
            r is Some ==> final(self).state is Paused,
            r is None ==> final(self).state == old(self).state,
            ({
                let start = Emulator {
                    delay_timer: dec_timer(old(self).delay_timer),
                    sound_timer: dec_timer(old(self).sound_timer),
                    ..*old(self)
                };
                let end = Emulator { frame_count: old(self).frame_count, ..*final(self) };
                match r {
                    None => ran_cycles(
                        start,
                        end,
                        (if old(self).cpf >= 0 {
                            old(self).cpf
                        } else {
                            0
                        }) as nat,
                    ),
                    Some(f) => exists|m: Emulator, j: int|
                        0 <= j < old(self).cpf && #[trigger] ran_cycles(start, m, j as nat)
                            && cycle_rel(m, end, Err::<(), Fault>(f)),
                }
            }),
    {
        if self.delay_timer > 0 {
            self.delay_timer = self.delay_timer - 1;
        }
        if self.sound_timer > 0 {
            self.sound_timer = self.sound_timer - 1;
        }
        let ghost start = *self;

        let cycles = self.cpf;
        let mut k: i32 = 0;
        while k < cycles
            invariant
                self.wf(),
                0 <= k,
                cycles == self.cpf,
                cycles >= 0 ==> k <= cycles,
                cycles < 0 ==> k == 0,
                old(self).same_config(*self),
                self.key == old(self).key,
                self.frame_count == old(self).frame_count,
                self.state == old(self).state,
                start == (Emulator {
                    delay_timer: dec_timer(old(self).delay_timer),
                    sound_timer: dec_timer(old(self).sound_timer),
                    ..*old(self)
                }),
                ran_cycles(start, *self, k as nat),
            decreases cycles - k,
        {
            let ghost prev = *self;
            match self.internal_step() {
                Ok(()) => {
                    proof {
                        assert(cycle_rel(prev, *self, Ok::<(), Fault>(())));
                        assert(ran_cycles(start, *self, (k + 1) as nat));
                    }
                },
                Err(f) => {
                    proof {
                        assert(cycle_rel(prev, *self, Err::<(), Fault>(f)));
                    }
                    let ghost before = *self;
                    if self.frame_count < u128::MAX {
                        self.frame_count = self.frame_count + 1;
                    }
                    proof {
                        let end = Emulator { frame_count: old(self).frame_count, ..*self };
                        assert(end == before);
                        assert(ran_cycles(start, prev, k as nat));
                        assert(cycle_rel(prev, end, Err::<(), Fault>(f)));
                    }
                    return Some(f);
                },
            }
            k = k + 1;
        }

        let ghost done = *self;
        if self.frame_count < u128::MAX {
            self.frame_count = self.frame_count + 1;
        }
        proof {
            let end = Emulator { frame_count: old(self).frame_count, ..*self };
            assert(end == done);
            assert(ran_cycles(start, end, k as nat));
        }
        None
    }
}

/// Every field agrees but possibly the program counter.
pub open spec fn only_pc_changed(a: Emulator, b: Emulator) -> bool {
    &&& a.same_config(b)
    &&& b.state == a.state
    &&& b.last_unimplemented == a.last_unimplemented
    &&& b.frame_count == a.frame_count
    &&& b.mem@ == a.mem@
    &&& b.display@ == a.display@
    &&& b.reg_i == a.reg_i
    &&& b.stack@ == a.stack@
    &&& b.delay_timer == a.delay_timer
    &&& b.sound_timer == a.sound_timer
    &&& b.regs@ == a.regs@
    &&& b.key == a.key
}

/// Every field agrees but possibly the general registers.
pub open spec fn only_regs_changed(a: Emulator, b: Emulator) -> bool {
    &&& a.same_config(b)
    &&& b.state == a.state
    &&& b.last_unimplemented == a.last_unimplemented
    &&& b.frame_count == a.frame_count
    &&& b.mem@ == a.mem@
    &&& b.display@ == a.display@
    &&& b.pc == a.pc
    &&& b.reg_i == a.reg_i
    &&& b.stack@ == a.stack@
    &&& b.delay_timer == a.delay_timer
    &&& b.sound_timer == a.sound_timer
    &&& b.key == a.key
}

/// Every field agrees but possibly the call stack and the program counter.
pub open spec fn only_stack_and_pc_changed(a: Emulator, b: Emulator) -> bool {
    &&& a.same_config(b)
    &&& b.state == a.state
    &&& b.last_unimplemented == a.last_unimplemented
    &&& b.frame_count == a.frame_count
    &&& b.mem@ == a.mem@
    &&& b.display@ == a.display@
    &&& b.reg_i == a.reg_i
    &&& b.delay_timer == a.delay_timer
    &&& b.sound_timer == a.sound_timer
    &&& b.regs@ == a.regs@
    &&& b.key == a.key
}

/// Every field agrees but possibly the index register.
pub open spec fn only_reg_i_changed(a: Emulator, b: Emulator) -> bool {
    &&& a.same_config(b)
    &&& b.state == a.state
    &&& b.last_unimplemented == a.last_unimplemented
    &&& b.frame_count == a.frame_count
    &&& b.mem@ == a.mem@
    &&& b.display@ == a.display@
    &&& b.pc == a.pc
    &&& b.stack@ == a.stack@
    &&& b.delay_timer == a.delay_timer
    &&& b.sound_timer == a.sound_timer
    &&& b.regs@ == a.regs@
    &&& b.key == a.key
}

/// Every field agrees but possibly the index register and the registers.
pub open spec fn only_reg_i_and_regs_changed(a: Emulator, b: Emulator) -> bool {
    &&& a.same_config(b)
    &&& b.state == a.state
    &&& b.last_unimplemented == a.last_unimplemented
    &&& b.frame_count == a.frame_count
    &&& b.mem@ == a.mem@
    &&& b.display@ == a.display@
    &&& b.pc == a.pc
    &&& b.stack@ == a.stack@
    &&& b.delay_timer == a.delay_timer
    &&& b.sound_timer == a.sound_timer
    &&& b.key == a.key
}

/// Every field agrees but possibly the delay timer.
pub open spec fn only_delay_changed(a: Emulator, b: Emulator) -> bool {
    &&& a.same_config(b)
    &&& b.state == a.state
    &&& b.last_unimplemented == a.last_unimplemented
    &&& b.frame_count == a.frame_count
    &&& b.mem@ == a.mem@
    &&& b.display@ == a.display@
    &&& b.pc == a.pc
    &&& b.reg_i == a.reg_i
    &&& b.stack@ == a.stack@
    &&& b.sound_timer == a.sound_timer
    &&& b.regs@ == a.regs@
    &&& b.key == a.key
}

/// Every field agrees but possibly the sound timer.
pub open spec fn only_sound_changed(a: Emulator, b: Emulator) -> bool {
    &&& a.same_config(b)
    &&& b.state == a.state
    &&& b.last_unimplemented == a.last_unimplemented
    &&& b.frame_count == a.frame_count
    &&& b.mem@ == a.mem@
    &&& b.display@ == a.display@
    &&& b.pc == a.pc
    &&& b.reg_i == a.reg_i
    &&& b.stack@ == a.stack@
    &&& b.delay_timer == a.delay_timer
    &&& b.regs@ == a.regs@
    &&& b.key == a.key
}

/// Every field agrees but possibly the framebuffer.
pub open spec fn only_display_changed(a: Emulator, b: Emulator) -> bool {
    &&& a.same_config(b)
    &&& b.state == a.state
    &&& b.last_unimplemented == a.last_unimplemented
    &&& b.frame_count == a.frame_count
    &&& b.mem@ == a.mem@
    &&& b.pc == a.pc
    &&& b.reg_i == a.reg_i
    &&& b.stack@ == a.stack@
    &&& b.delay_timer == a.delay_timer
    &&& b.sound_timer == a.sound_timer
    &&& b.regs@ == a.regs@
    &&& b.key == a.key
}

/// Every field agrees but possibly the framebuffer and the registers.
pub open spec fn only_display_and_regs_changed(a: Emulator, b: Emulator) -> bool {
    &&& a.same_config(b)
    &&& b.state == a.state
    &&& b.last_unimplemented == a.last_unimplemented
    &&& b.frame_count == a.frame_count
    &&& b.mem@ == a.mem@
    &&& b.pc == a.pc
    &&& b.reg_i == a.reg_i
    &&& b.stack@ == a.stack@
    &&& b.delay_timer == a.delay_timer
    &&& b.sound_timer == a.sound_timer
    &&& b.key == a.key
}

/// The 16-bit big-endian instruction word at address `a`: high byte at the
/// lower address.
pub open spec fn fetch16(mem: Seq<u8>, a: int) -> u16 {
    ((mem[a] as u16) << 8u16) | (mem[a + 1] as u16)
}

/// The first register selector of an instruction word: its second nibble.
pub open spec fn nib_x(inst: u16) -> u8 {
    ((inst & 0x0F00) >> 8u16) as u8
}

/// The second register selector of an instruction word: its third nibble.
pub open spec fn nib_y(inst: u16) -> u8 {
    ((inst & 0x00F0) >> 4u16) as u8
}

/// The 4-bit immediate of an instruction word: its low nibble.
pub open spec fn nib_n(inst: u16) -> u8 {
    (inst & 0x000F) as u8
}

/// The 8-bit immediate of an instruction word: its low byte.
pub open spec fn imm_nn(inst: u16) -> u8 {
    (inst & 0x00FF) as u8
}

/// The 12-bit address immediate of an instruction word: its low 12 bits.
pub open spec fn addr_nnn(inst: u16) -> u16 {
    inst & 0x0FFF
}

/// The machine has been halted by a fatal fault: nothing changed but the
/// lifecycle state, now paused.
pub open spec fn paused_from(a: Emulator, b: Emulator) -> bool {
    &&& only_state_changed(a, b)
    &&& b.state is Paused
}

/// The next instruction was skipped exactly when `cond` holds.
pub open spec fn skipped(a: Emulator, b: Emulator, cond: bool) -> bool {
    &&& only_pc_changed(a, b)
    &&& b.pc == (if cond {
        (a.pc + 2) as u16
    } else {
        a.pc
    })
}

/// An unimplemented instruction was reported and skipped: nothing changed
/// but the report field.
pub open spec fn noted_unimplemented(a: Emulator, b: Emulator, inst: u16) -> bool {
    &&& a.same_config(b)
    &&& b.state == a.state
    &&& b.last_unimplemented == Some(inst)
    &&& b.frame_count == a.frame_count
    &&& b.mem@ == a.mem@
    &&& b.display@ == a.display@
    &&& b.pc == a.pc
    &&& b.reg_i == a.reg_i
    &&& b.stack@ == a.stack@
    &&& b.delay_timer == a.delay_timer
    &&& b.sound_timer == a.sound_timer
    &&& b.regs@ == a.regs@
    &&& b.key == a.key
}

/// The semantic table of the instruction set: how the machine `b` after
/// dispatching the already-fetched word `inst` from machine `a` (whose
/// program counter is already past the word) relates to `a`, and which
/// result the cycle reports. The families 0x0, 0x8, 0xE and 0xF select on
/// the low byte or nibble; a word no row covers is reported as
/// unimplemented and skipped.
pub open spec fn cycle_dispatch(a: Emulator, b: Emulator, r: Result<(), Fault>, inst: u16) -> bool {
    let x = nib_x(inst) as int;
    let y = nib_y(inst) as int;
    let n = nib_n(inst);
    let nn = imm_nn(inst);
    let nnn = addr_nnn(inst);
    let fam = inst & 0xF000;
    if inst == 0x00E0 {
        &&& r is Ok
        &&& only_display_changed(a, b)
        &&& b.display@ == Seq::new(2048, |i: int| 0u8)
    } else if inst == 0x00EE {
        if a.stack@.len() > 0 {
            &&& r is Ok
            &&& only_stack_and_pc_changed(a, b)
            &&& b.pc == a.stack@.last()
            &&& b.stack@ == a.stack@.subrange(0, a.stack@.len() - 1)
        } else {
            &&& r == Err::<(), Fault>(Fault::StackUnderflow)
            &&& paused_from(a, b)
        }
    } else if fam == 0x0000 {
        r is Ok && noted_unimplemented(a, b, inst)
    } else if fam == 0x1000 {
        r is Ok && only_pc_changed(a, b) && b.pc == nnn
    } else if fam == 0x2000 {
        &&& r is Ok
        &&& only_stack_and_pc_changed(a, b)
        &&& b.stack@ == a.stack@.push(a.pc)
        &&& b.pc == nnn
    } else if fam == 0x3000 {
        r is Ok && skipped(a, b, a.regs@[x] == nn)
    } else if fam == 0x4000 {
        r is Ok && skipped(a, b, a.regs@[x] != nn)
    } else if fam == 0x5000 {
        r is Ok && skipped(a, b, a.regs@[x] == a.regs@[y])
    } else if fam == 0x6000 {
        r is Ok && only_regs_changed(a, b) && b.regs@ == a.regs@.update(x, nn)
    } else if fam == 0x7000 {
        r is Ok && only_regs_changed(a, b) && b.regs@ == a.regs@.update(
            x,
            ((a.regs@[x] + nn) % 256) as u8,
        )
    } else if fam == 0x8000 {
        if n == 0x0 {
            r is Ok && only_regs_changed(a, b) && b.regs@ == a.regs@.update(x, a.regs@[y])
        } else if n == 0x1 {
            r is Ok && only_regs_changed(a, b) && b.regs@ == a.regs@.update(
                x,
                a.regs@[x] | a.regs@[y],
            )
        } else if n == 0x2 {
            r is Ok && only_regs_changed(a, b) && b.regs@ == a.regs@.update(
                x,
                a.regs@[x] & a.regs@[y],
            )
        } else if n == 0x3 {
            r is Ok && only_regs_changed(a, b) && b.regs@ == a.regs@.update(
                x,
                a.regs@[x] ^ a.regs@[y],
            )
        } else if n == 0x4 {
            r is Ok && only_regs_changed(a, b) && b.regs@ == crate::ops::add_spec(a.regs@, x, y)
        } else if n == 0x5 {
            r is Ok && only_regs_changed(a, b) && b.regs@ == crate::ops::sub_spec(a.regs@, x, y)
        } else if n == 0x6 {
            r is Ok && only_regs_changed(a, b) && b.regs@ == crate::ops::shr_spec(
                a.regs@,
                x,
                y,
                a.shift_swap,
            )
        } else if n == 0x7 {
            r is Ok && only_regs_changed(a, b) && b.regs@ == crate::ops::rsub_spec(a.regs@, x, y)
        } else if n == 0xE {
            r is Ok && only_regs_changed(a, b) && b.regs@ == crate::ops::shl_spec(
                a.regs@,
                x,
                y,
                a.shift_swap,
            )
        } else {
            r is Ok && noted_unimplemented(a, b, inst)
        }
    } else if fam == 0x9000 {
        r is Ok && skipped(a, b, a.regs@[x] != a.regs@[y])
    } else if fam == 0xA000 {
        r is Ok && only_reg_i_changed(a, b) && b.reg_i == nnn
    } else if fam == 0xB000 {
        &&& r is Ok
        &&& only_pc_changed(a, b)
        &&& b.pc == (if a.complex_jump {
            nnn + a.regs@[x]
        } else {
            nnn + a.regs@[0]
        })
    } else if fam == 0xC000 {
        &&& r is Ok
        &&& only_regs_changed(a, b)
        &&& exists|rb: u8| b.regs@ == a.regs@.update(x, #[trigger] (rb & nn))
    } else if fam == 0xD000 {
        let px = a.regs@[x] % 64;
        let py = a.regs@[y] % 32;
        let i = a.reg_i as int;
        if draw_oob(i, py as int, n as int) {
            r == Err::<(), Fault>(Fault::AddressOutOfRange) && paused_from(a, b)
        } else {
            &&& r is Ok
            &&& only_display_and_regs_changed(a, b)
            &&& b.display@ == draw_display(a.display@, a.mem@, i, px as int, py as int, n as int)
            &&& b.regs@ == a.regs@.update(
                15,
                if draw_collides(a.display@, a.mem@, i, px as int, py as int, n as int) {
                    1u8
                } else {
                    0u8
                },
            )
        }
    } else if fam == 0xE000 {
        if nn == 0x9E {
            r is Ok && skipped(a, b, a.key == Some(a.regs@[x]))
        } else if nn == 0xA1 {
            r is Ok && skipped(a, b, !(a.key == Some(a.regs@[x])))
        } else {
            r is Ok && noted_unimplemented(a, b, inst)
        }
    } else if fam == 0xF000 {
        if nn == 0x07 {
            r is Ok && only_regs_changed(a, b) && b.regs@ == a.regs@.update(x, a.delay_timer)
        } else if nn == 0x15 {
            r is Ok && only_delay_changed(a, b) && b.delay_timer == a.regs@[x]
        } else if nn == 0x18 {
            r is Ok && only_sound_changed(a, b) && b.sound_timer == a.regs@[x]
        } else if nn == 0x1E {
            &&& r is Ok
            &&& only_reg_i_and_regs_changed(a, b)
            &&& b.reg_i == (if a.reg_i + a.regs@[x] > 0xFFFF {
                0xFFFFu16
            } else {
                (a.reg_i + a.regs@[x]) as u16
            })
            &&& b.regs@ == (if b.reg_i > 0x1000 {
                a.regs@.update(15, 1u8)
            } else {
                a.regs@
            })
        } else if nn == 0x0A {
            match a.key {
                Some(k) => r is Ok && only_regs_changed(a, b) && b.regs@ == a.regs@.update(x, k),
                None => r is Ok && only_pc_changed(a, b) && b.pc == a.pc - 2,
            }
        } else if nn == 0x29 {
            r is Ok && only_reg_i_changed(a, b) && b.reg_i == 80 + (a.regs@[x] & 0xF) * 5
        } else if nn == 0x33 {
            if a.reg_i + 2 < 4096 {
                r is Ok && only_mem_changed(a, b) && b.mem@ == a.mem@.update(
                    a.reg_i as int,
                    ((a.regs@[x] as int) / 100) as u8,
                ).update(a.reg_i + 1, (((a.regs@[x] as int) % 100) / 10) as u8).update(
                    a.reg_i + 2,
                    ((a.regs@[x] as int) % 10) as u8,
                )
            } else {
                r == Err::<(), Fault>(Fault::AddressOutOfRange) && paused_from(a, b)
            }
        } else if nn == 0x55 {
            if a.reg_i + x < 4096 {
                &&& r is Ok
                &&& only_mem_changed(a, b)
                &&& forall|j: int| 0 <= j <= x ==> b.mem@[a.reg_i + j] == a.regs@[j]
                &&& forall|ad: int|
                    0 <= ad < 4096 && !(a.reg_i <= ad <= a.reg_i + x) ==> b.mem@[ad]
                        == #[trigger] a.mem@[ad]
            } else {
                r == Err::<(), Fault>(Fault::AddressOutOfRange) && paused_from(a, b)
            }
        } else if nn == 0x65 {
            if a.reg_i + x < 4096 {
                &&& r is Ok
                &&& only_regs_changed(a, b)
                &&& forall|j: int| 0 <= j <= x ==> b.regs@[j] == a.mem@[a.reg_i + j]
                &&& forall|j: int| x < j < 16 ==> b.regs@[j] == #[trigger] a.regs@[j]
            } else {
                r == Err::<(), Fault>(Fault::AddressOutOfRange) && paused_from(a, b)
            }
        } else {
            r is Ok && noted_unimplemented(a, b, inst)
        }
    } else {
        r is Ok && noted_unimplemented(a, b, inst)
    }
}

/// A frame-start timer value: decremented by one if nonzero, floored at 0.
pub open spec fn dec_timer(t: u8) -> u8 {
    if t > 0 {
        (t - 1) as u8
    } else {
        0
    }
}

/// Machine `a` has run exactly `k` fetch-decode-execute cycles, each
/// completing without a fault, and ended as machine `b`.
pub open spec fn ran_cycles(a: Emulator, b: Emulator, k: nat) -> bool
    decreases k,
{
    if k == 0 {
        b == a
    } else {
        exists|m: Emulator|
            ran_cycles(a, m, (k - 1) as nat) && #[trigger] cycle_rel(m, b, Ok::<(), Fault>(()))
    }
}

/// One whole fetch-decode-execute cycle: a fetch whose word would lie
/// outside memory halts the machine; otherwise the program counter first
/// advances past the fetched word (so jumps and skips override it) and the
/// semantic table of `cycle_dispatch` relates the outcome to the advanced
/// machine.
pub open spec fn cycle_rel(a: Emulator, b: Emulator, r: Result<(), Fault>) -> bool {
    if a.pc as int + 1 >= 4096 {
        &&& r == Err::<(), Fault>(Fault::AddressOutOfRange)
        &&& paused_from(a, b)
    } else {
        cycle_dispatch(
            Emulator { pc: (a.pc + 2) as u16, ..a },
            b,
            r,
            fetch16(a.mem@, a.pc as int),
        )
    }
}

/// Relies on rand::random::<u8>: a byte drawn from a thread-local
/// generator. Nothing is promised of the value.
#[verifier::external_body]
fn random_byte() -> u8 {
    rand::random::<u8>()
}

/// Law: resetting twice in a row leaves exactly the machine one reset
/// leaves: a reset clears every piece of machine state and keeps only the
/// configuration, so a second reset finds nothing left to change.
pub proof fn lemma_reset_idempotent(a: Emulator, b: Emulator, c: Emulator)
    requires
        b.machine_cleared(),
        a.same_config(b),
        c.machine_cleared(),
        b.same_config(c),
    ensures
        b.machine_eq(c),
{
}

/// Law: after the framebuffer is cleared, reading any of the 2048 pixel
/// positions yields 0.
pub proof fn lemma_cleared_display_blank(e: Emulator, x: int, y: int)
    requires
        e.display@ == Seq::new(2048, |i: int| 0u8),
        0 <= x < 64,
        0 <= y < 32,
    ensures
        e.display@[pix_idx(x, y)] == 0,
{
    lemma_pix_decomp(x, y);
}

/// A vector of `n` zero bytes.
fn zero_vec(n: usize) -> (v: Vec<u8>)
    ensures
        v@ == Seq::new(n as nat, |i: int| 0u8),
{
    let mut v: Vec<u8> = Vec::new();
    while v.len() < n
        invariant
            v@.len() <= n as nat,
            forall|i: int| 0 <= i < v@.len() ==> v@[i] == 0u8,
        decreases n - v@.len(),
    {
        v.push(0);
    }
    proof {
        assert(v@ =~= Seq::new(n as nat, |i: int| 0u8));
    }
    v
}

} // verus!
