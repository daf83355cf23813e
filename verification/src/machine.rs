use vstd::prelude::*;
use crate::um::Field;
use crate::um::Opcode;

verus! {

/// Why a machine stopped abnormally.
#[derive(Clone, Copy, Debug, PartialEq, Eq, Structural)]
pub enum Fault {
    /// The opcode field selects none of the fourteen operations.
    InvalidInstruction,
    /// A segment identifier that is not mapped: never issued, or reclaimed.
    UnmappedSegment,
    /// A word index at or beyond the end of its segment; the program counter
    /// beyond the end of the program.
    OutOfBounds,
    /// A division whose divisor is zero.
    DivisionByZero,
    /// An output value above 255.
    InvalidOutput,
    /// The input stream failed otherwise than by ending.
    InputFailure,
    /// An attempt to unmap segment 0, which holds the program.
    ReservedSegment,
    /// No identifier is left for a new segment.
    SegmentsExhausted,
}

/// What came of one read of the input stream.
#[derive(Clone, Copy, Debug, PartialEq, Eq, Structural)]
pub enum Input {
    /// The next byte of the stream.
    Byte(u8),
    /// The stream has ended.
    End,
    /// The read failed.
    Failed,
}

/// What the machine reports to its host after an instruction.
#[derive(Clone, Copy, Debug, PartialEq, Eq, Structural)]
pub enum Event {
    /// The instruction is done; the next one can run.
    Continue,
    /// A halt instruction: the program has ended.
    Halt,
    /// The host is to emit this character.
    Output(char),
    /// The host is to read the input stream and hand what it got to `input`
    /// for this register.
    Input(u32),
    /// A fatal condition: the machine state is as it was before the
    /// instruction.
    Fault(Fault),
}

/// The machine as a mathematical value.
#[verifier::ext_equal]
pub struct Machine {
    /// The eight registers.
    pub reg: Seq<u32>,
    /// The segments by identifier; `None` where the identifier is not mapped.
    pub mem: Seq<Option<Seq<u32>>>,
    /// The index in segment 0 of the next instruction.
    pub pc: nat,
    /// The reclaimed identifiers; the last one is reused first.
    pub free: Seq<u32>,
}

/// A segment of `n` words, all zero.
pub open spec fn zeros(n: u32) -> Seq<u32> {
    Seq::new(n as nat, |i: int| 0u32)
}

impl Machine {
    /// Registers zero, the program in segment 0, nothing else mapped.
    pub open spec fn boot(program: Seq<u32>) -> Machine {
        Machine { reg: Seq::new(8, |i: int| 0u32), mem: seq![Some(program)], pc: 0, free: seq![] }
    }

    /// There are eight registers, segment 0 is mapped, every identifier fits
    /// in 32 bits, and the free pool holds exactly the unmapped identifiers,
    /// each once.
    pub open spec fn wf(self) -> bool {
        &&& self.reg.len() == 8
        &&& 0 < self.mem.len() <= 0x1_0000_0000
        &&& self.mem[0] is Some
        &&& self.free.no_duplicates()
        &&& forall|i: int|
            0 <= i < self.free.len() ==> (#[trigger] self.free[i]) < self.mem.len()
                && self.mem[self.free[i] as int] is None
        &&& forall|id: int|
            0 <= id < self.mem.len() && (#[trigger] self.mem[id]) is None ==> self.free.contains(
                id as u32,
            )
    }

    /// `id` names a segment.
    pub open spec fn mapped(self, id: u32) -> bool {
        id < self.mem.len() && self.mem[id as int] is Some
    }

    /// The words of segment `id`.
    pub open spec fn segment(self, id: u32) -> Seq<u32>
        recommends
            self.mapped(id),
    {
        self.mem[id as int]->0
    }

    /// The machine with register `r` set to `v`.
    pub open spec fn set_reg(self, r: u32, v: u32) -> Machine {
        Machine { reg: self.reg.update(r as int, v), ..self }
    }

    /// The machine with the program counter moved to the next word.
    pub open spec fn advance(self) -> Machine {
        Machine { pc: self.pc + 1, ..self }
    }

    /// Conditional move: register `a` takes register `b` unless register `c` is zero.
    pub open spec fn cmov(self, a: u32, b: u32, c: u32) -> Machine {
        if self.reg[c as int] != 0 {
            self.set_reg(a, self.reg[b as int])
        } else {
            self
        }
    }

    /// Segmented load: register `a` takes word `reg[c]` of segment `reg[b]`.
    pub open spec fn load(self, a: u32, b: u32, c: u32) -> Result<Machine, Fault> {
        let id = self.reg[b as int];
        let at = self.reg[c as int];
        if !self.mapped(id) {
            Err(Fault::UnmappedSegment)
        } else if at >= self.segment(id).len() {
            Err(Fault::OutOfBounds)
        } else {
            Ok(self.set_reg(a, self.segment(id)[at as int]))
        }
    }

    /// Segmented store: word `reg[b]` of segment `reg[a]` takes register `c`.
    pub open spec fn store(self, a: u32, b: u32, c: u32) -> Result<Machine, Fault> {
        let id = self.reg[a as int];
        let at = self.reg[b as int];
        if !self.mapped(id) {
            Err(Fault::UnmappedSegment)
        } else if at >= self.segment(id).len() {
            Err(Fault::OutOfBounds)
        } else {
            Ok(
                Machine {
                    mem: self.mem.update(
                        id as int,
                        Some(self.segment(id).update(at as int, self.reg[c as int])),
                    ),
                    ..self
                },
            )
        }
    }

    /// Addition modulo 2^32.
    pub open spec fn add(self, a: u32, b: u32, c: u32) -> Machine {
        self.set_reg(a, ((self.reg[b as int] + self.reg[c as int]) % 0x1_0000_0000) as u32)
    }

    /// Multiplication modulo 2^32.
    pub open spec fn mul(self, a: u32, b: u32, c: u32) -> Machine {
        self.set_reg(a, ((self.reg[b as int] * self.reg[c as int]) % 0x1_0000_0000) as u32)
    }

    /// Unsigned division, rounding down.
    pub open spec fn div(self, a: u32, b: u32, c: u32) -> Result<Machine, Fault> {
        if self.reg[c as int] == 0 {
            Err(Fault::DivisionByZero)
        } else {
            Ok(self.set_reg(a, (self.reg[b as int] as int / self.reg[c as int] as int) as u32))
        }
    }

    /// Bitwise not-and over all 32 bits.
    pub open spec fn nand(self, a: u32, b: u32, c: u32) -> Machine {
        self.set_reg(a, !(self.reg[b as int] & self.reg[c as int]))
    }

    /// The identifier that the next map-segment issues: the one reclaimed
    /// last, or else the one past all that were ever issued.
    pub open spec fn next_id(self) -> int {
        if self.free.len() > 0 {
            self.free.last() as int
        } else {
            self.mem.len() as int
        }
    }

    /// Map segment: a new all-zero segment of `reg[c]` words under
    /// `next_id()`, which register `b` takes.
    pub open spec fn map(self, b: u32, c: u32) -> Result<Machine, Fault> {
        let id = self.next_id();
        let fresh = Some(zeros(self.reg[c as int]));
        if self.free.len() > 0 {
            Ok(
                Machine {
                    reg: self.reg.update(b as int, id as u32),
                    mem: self.mem.update(id, fresh),
                    free: self.free.drop_last(),
                    ..self
                },
            )
        } else if id >= 0x1_0000_0000 {
            Err(Fault::SegmentsExhausted)
        } else {
            Ok(
                Machine {
                    reg: self.reg.update(b as int, id as u32),
                    mem: self.mem.push(fresh),
                    ..self
                },
            )
        }
    }

    /// Unmap segment: segment `reg[c]` goes, and its identifier joins the
    /// free pool.
    pub open spec fn unmap(self, c: u32) -> Result<Machine, Fault> {
        let id = self.reg[c as int];
        if !self.mapped(id) {
            Err(Fault::UnmappedSegment)
        } else if id == 0 {
            Err(Fault::ReservedSegment)
        } else {
            Ok(Machine { mem: self.mem.update(id as int, None), free: self.free.push(id), ..self })
        }
    }

    /// Output: the character whose code point is register `c`.
    pub open spec fn out(self, c: u32) -> Result<char, Fault> {
        if self.reg[c as int] > 255 {
            Err(Fault::InvalidOutput)
        } else {
            Ok(self.reg[c as int] as char)
        }
    }

    /// Input: register `c` takes the byte read, or all ones at the end of
    /// the stream.
    pub open spec fn input(self, c: u32, read: Input) -> Result<Machine, Fault> {
        match read {
            Input::Byte(b) => Ok(self.set_reg(c, b as u32)),
            Input::End => Ok(self.set_reg(c, 0xFFFF_FFFF)),
            Input::Failed => Err(Fault::InputFailure),
        }
    }

    /// Load program: segment 0 becomes a copy of segment `reg[b]`, and the
    /// program counter becomes `reg[c]`.
    pub open spec fn lp(self, b: u32, c: u32) -> Result<Machine, Fault> {
        let id = self.reg[b as int];
        if !self.mapped(id) {
            Err(Fault::UnmappedSegment)
        } else {
            Ok(
                Machine {
                    mem: self.mem.update(0, Some(self.segment(id))),
                    pc: self.reg[c as int] as nat,
                    ..self
                },
            )
        }
    }

    /// Load value: register `a` takes `value`.
    pub open spec fn lv(self, a: u32, value: u32) -> Machine {
        self.set_reg(a, value)
    }

    /// What an instruction that can fail leaves behind: the new machine with
    /// the program counter moved on, or the old machine and the fault.
    pub open spec fn settle(self, done: Result<Machine, Fault>) -> (Machine, Event) {
        match done {
            Ok(next) => (next.advance(), Event::Continue),
            Err(fault) => (self, Event::Fault(fault)),
        }
    }

    /// One instruction: fetch the word at the program counter, decode it,
    /// and carry it out.
    pub open spec fn step(self) -> (Machine, Event) {
        let program = self.segment(0);
        if self.pc >= program.len() {
            (self, Event::Fault(Fault::OutOfBounds))
        } else {
            let word = program[self.pc as int];
            let a = Field::ra().extract(word);
            let b = Field::rb().extract(word);
            let c = Field::rc().extract(word);
            match Opcode::from_code(Field::op().extract(word)) {
                None => (self, Event::Fault(Fault::InvalidInstruction)),
                Some(Opcode::CMov) => (self.cmov(a, b, c).advance(), Event::Continue),
                Some(Opcode::Load) => self.settle(self.load(a, b, c)),
                Some(Opcode::Store) => self.settle(self.store(a, b, c)),
                Some(Opcode::Add) => (self.add(a, b, c).advance(), Event::Continue),
                Some(Opcode::Mul) => (self.mul(a, b, c).advance(), Event::Continue),
                Some(Opcode::Div) => self.settle(self.div(a, b, c)),
                Some(Opcode::Nand) => (self.nand(a, b, c).advance(), Event::Continue),
                Some(Opcode::Halt) => (self, Event::Halt),
                Some(Opcode::MapSeg) => self.settle(self.map(b, c)),
                Some(Opcode::UMapSeg) => self.settle(self.unmap(c)),
                Some(Opcode::Out) => match self.out(c) {
                    Ok(ch) => (self.advance(), Event::Output(ch)),
                    Err(fault) => (self, Event::Fault(fault)),
                },
                Some(Opcode::In) => (self.advance(), Event::Input(c)),
                Some(Opcode::LP) => match self.lp(b, c) {
                    Ok(next) => (next, Event::Continue),
                    Err(fault) => (self, Event::Fault(fault)),
                },
                Some(Opcode::LV) => (
                    self.lv(Field::rl().extract(word), Field::vl().extract(word)).advance(),
                    Event::Continue,
                ),
            }
        }
    }

    /// Up to `budget` instructions, stopping early at the first one that
    /// reports anything but `Continue`.
    pub open spec fn run(self, budget: nat) -> (Machine, Event)
        decreases budget,
    {
        if budget == 0 {
            (self, Event::Continue)
        } else {
            let (next, event) = self.step();
            if event == Event::Continue {
                next.run((budget - 1) as nat)
            } else {
                (next, event)
            }
        }
    }
}

} // verus!
