use vstd::prelude::*;
use vstd::pervasive::unreached;
use crate::instructions::cmov;
use crate::instructions::div;
use crate::instructions::load;
use crate::instructions::lp;
use crate::instructions::lv;
use crate::instructions::mapseg;
use crate::instructions::nand;
use crate::instructions::out;
use crate::instructions::store;
use crate::instructions::umapseg;
use crate::laws::fields_are_bounded;
use crate::machine::Event;
use crate::machine::Fault;
use crate::machine::Machine;

verus! {

/// A bit field of an instruction word: `width` bits, the lowest of which is
/// bit `lsb` of the word.
#[derive(Clone, Copy, Debug)]
pub struct Field {
    pub width: u32,
    pub lsb: u32,
}

impl Field {
    /// The opcode: the four highest bits.
    #[verifier::allow_in_spec]
    pub fn op() -> Field
        returns
            (Field { width: 4, lsb: 28 }),
    {
        Field { width: 4, lsb: 28 }
    }

    /// Register operand A.
    #[verifier::allow_in_spec]
    pub fn ra() -> Field
        returns
            (Field { width: 3, lsb: 6 }),
    {
        Field { width: 3, lsb: 6 }
    }

    /// Register operand B.
    #[verifier::allow_in_spec]
    pub fn rb() -> Field
        returns
            (Field { width: 3, lsb: 3 }),
    {
        Field { width: 3, lsb: 3 }
    }

    /// Register operand C.
    #[verifier::allow_in_spec]
    pub fn rc() -> Field
        returns
            (Field { width: 3, lsb: 0 }),
    {
        Field { width: 3, lsb: 0 }
    }

    /// The register that a load-value instruction writes.
    #[verifier::allow_in_spec]
    pub fn rl() -> Field
        returns
            (Field { width: 3, lsb: 25 }),
    {
        Field { width: 3, lsb: 25 }
    }

    /// The immediate of a load-value instruction.
    #[verifier::allow_in_spec]
    pub fn vl() -> Field
        returns
            (Field { width: 25, lsb: 0 }),
    {
        Field { width: 25, lsb: 0 }
    }

    /// A field that `get` can read: both numbers are bit positions of a
    /// 32-bit word.
    pub open spec fn valid(self) -> bool {
        self.width < 32 && self.lsb < 32
    }

    /// The value of this field in `word`.
    pub open spec fn extract(self, word: u32) -> u32 {
        (word >> self.lsb) & spec_mask(self.width)
    }
}

/// The word whose `bits` lowest bits are set, and no others.
pub open spec fn spec_mask(bits: u32) -> u32 {
    ((1u32 << bits) - 1) as u32
}

/// Computes the word whose `bits` lowest bits are set.
#[verifier::when_used_as_spec(spec_mask)]
pub fn mask(bits: u32) -> (m: u32)
    requires
        bits < 32,
    ensures
        m == spec_mask(bits),
{
    assert(1u32 << bits >= 1u32) by (bit_vector)
        requires
            bits < 32,
    ;
    (1u32 << bits) - 1
}

/// Reads `field` out of `instruction`.
pub fn get(field: &Field, instruction: u32) -> (value: u32)
    requires
        field.valid(),
    ensures
        value == field.extract(instruction),
{
    (instruction >> field.lsb) & mask(field.width)
}

/// The fourteen operations, in the order of their codes.
#[derive(Clone, Copy, Debug, PartialEq, Eq, Structural)]
pub enum Opcode {
    CMov,
    Load,
    Store,
    Add,
    Mul,
    Div,
    Nand,
    Halt,
    MapSeg,
    UMapSeg,
    Out,
    In,
    LP,
    LV,
}

impl Opcode {
    /// The operation that `code` selects, if it selects one.
    pub open spec fn spec_from_code(code: u32) -> Option<Opcode> {
        match code {
            0 => Some(Opcode::CMov),
            1 => Some(Opcode::Load),
            2 => Some(Opcode::Store),
            3 => Some(Opcode::Add),
            4 => Some(Opcode::Mul),
            5 => Some(Opcode::Div),
            6 => Some(Opcode::Nand),
            7 => Some(Opcode::Halt),
            8 => Some(Opcode::MapSeg),
            9 => Some(Opcode::UMapSeg),
            10 => Some(Opcode::Out),
            11 => Some(Opcode::In),
            12 => Some(Opcode::LP),
            13 => Some(Opcode::LV),
            _ => None,
        }
    }

    /// Decodes an opcode field.
    #[verifier::when_used_as_spec(spec_from_code)]
    pub fn from_code(code: u32) -> (op: Option<Opcode>)
        ensures
            op == Opcode::spec_from_code(code),
    {
        match code {
            0 => Some(Opcode::CMov),
            1 => Some(Opcode::Load),
            2 => Some(Opcode::Store),
            3 => Some(Opcode::Add),
            4 => Some(Opcode::Mul),
            5 => Some(Opcode::Div),
            6 => Some(Opcode::Nand),
            7 => Some(Opcode::Halt),
            8 => Some(Opcode::MapSeg),
            9 => Some(Opcode::UMapSeg),
            10 => Some(Opcode::Out),
            11 => Some(Opcode::In),
            12 => Some(Opcode::LP),
            13 => Some(Opcode::LV),
            _ => None,
        }
    }
}

/// The machine: registers, segments, program counter and free pool.
#[derive(Debug)]
pub struct Um {
    /// The eight registers.
    pub reg: [u32; 8],
    /// The segments by identifier; `None` where the identifier is not mapped.
    pub mem: Vec<Option<Vec<u32>>>,
    /// The index in segment 0 of the next instruction.
    pub program_counter: usize,
    /// The reclaimed identifiers; the last one is reused first.
    pub empty_keys: Vec<u32>,
}

impl View for Um {
    type V = Machine;

    open spec fn view(&self) -> Machine {
        Machine {
            reg: self.reg@,
            mem: self.mem.deep_view(),
            pc: self.program_counter as nat,
            free: self.empty_keys@,
        }
    }
}

impl Um {
    /// The machine is well formed as `Machine::wf` says.
    pub open spec fn wf(&self) -> bool {
        self@.wf()
    }

    /// Tells whether the machine is well formed. A machine that
    /// `initialize_program` has set up is, and every instruction keeps it
    /// so; this is for one whose fields were written by hand.
    #[verifier::loop_isolation(false)]
    pub fn is_wf(&self) -> (ok: bool)
        ensures
            ok == self.wf(),
    {
        let n = self.mem.len();
        if n == 0 || n as u64 > 0x1_0000_0000 {
            return false;
        }
        if self.mem[0].is_none() {
            return false;
        }
        let mut seen: Vec<bool> = vec![false; n];
        let mut i: usize = 0;
        while i < self.empty_keys.len()
            invariant
                seen.len() == n,
                i <= self.empty_keys.len(),
                forall|j: int|
                    0 <= j < i ==> (#[trigger] self.empty_keys[j]) < n
                        && self.mem[self.empty_keys[j] as int] is None,
                forall|j: int, k: int|
                    0 <= j < k < i ==> self.empty_keys[j] != self.empty_keys[k],
                forall|id: int|
                    0 <= id < n ==> (#[trigger] seen[id] <==> exists|j: int|
                        0 <= j < i && self.empty_keys[j] == id),
            decreases self.empty_keys.len() - i,
        {
            let id = self.empty_keys[i] as usize;
            if id >= n {
                return false;
            }
            if self.mem[id].is_some() {
                assert(self@.mem[self@.free[i as int] as int] is Some);
                return false;
            }
            if seen[id] {
                proof {
                    let j = choose|j: int| 0 <= j < i && self.empty_keys[j] == id;
                    assert(self@.free[j] == self@.free[i as int]);
                }
                return false;
            }
            let ghost before = seen@;
            seen.set(id, true);
            proof {
                assert forall|other: int| 0 <= other < n implies (#[trigger] seen[other]
                    <==> exists|j: int| 0 <= j < i + 1 && self.empty_keys[j] == other) by {
                    if other == id {
                        assert(self.empty_keys[i as int] == other);
                    } else {
                        assert(seen[other] == before[other]);
                        if before[other] {
                            let j = choose|j: int| 0 <= j < i && self.empty_keys[j] == other;
                            assert(0 <= j < i + 1 && self.empty_keys[j] == other);
                        }
                    }
                }
            }
            i += 1;
        }
        let mut slot: usize = 0;
        while slot < n
            invariant
                slot <= n,
                forall|id: int| 0 <= id < slot && self.mem[id] is None ==> #[trigger] seen[id],
            decreases n - slot,
        {
            if self.mem[slot].is_none() && !seen[slot] {
                proof {
                    if self@.free.contains(slot as u32) {
                        let j = choose|j: int|
                            0 <= j < self@.free.len() && self@.free[j] == slot as u32;
                        assert(0 <= j < i && self.empty_keys[j] == slot);
                    }
                    assert(self@.mem[slot as int] is None);
                }
                return false;
            }
            slot += 1;
        }
        proof {
            assert forall|id: int|
                0 <= id < self@.mem.len() && (#[trigger] self@.mem[id]) is None implies
                self@.free.contains(id as u32) by {
                assert(self.mem[id] is None);
                assert(seen[id]);
                let j = choose|j: int| 0 <= j < i && self.empty_keys[j] == id;
                assert(self@.free[j] == id as u32);
            }
        }
        true
    }

    /// Resets the machine and loads `program` into segment 0.
    pub fn initialize_program(&mut self, program: Vec<u32>)
        ensures
            final(self)@ == Machine::boot(program@),
            final(self).wf(),
    {
        self.reg = [0; 8];
        self.mem = Vec::new();
        self.mem.push(Some(program));
        self.program_counter = 0;
        self.empty_keys = Vec::new();
        assert(self@ =~~= Machine::boot(program@));
    }

    /// Runs one instruction: fetches the word at the program counter,
    /// decodes it and carries it out. The program counter moves on by one
    /// word, except after a load-program, which sets it, and where the
    /// machine halts or faults, which leave it.
    pub fn step(&mut self) -> (event: Event)
        requires
            old(self).wf(),
        ensures
            (final(self)@, event) == old(self)@.step(),
            final(self).wf(),
    {
        let word = match &self.mem[0] {
            None => unreached(),
            Some(program) => {
                if self.program_counter >= program.len() {
                    return Event::Fault(Fault::OutOfBounds);
                }
                program[self.program_counter]
            },
        };
        proof {
            fields_are_bounded(word);
        }
        let ra = get(&Field::ra(), word);
        let rb = get(&Field::rb(), word);
        let rc = get(&Field::rc(), word);
        let event = match Opcode::from_code(get(&Field::op(), word)) {
            None => {
                return Event::Fault(Fault::InvalidInstruction);
            },
            Some(Opcode::CMov) => {
                cmov(self, ra, rb, rc);
                Event::Continue
            },
            Some(Opcode::Load) => match load(self, ra, rb, rc) {
                Ok(()) => Event::Continue,
                Err(fault) => {
                    return Event::Fault(fault);
                },
            },
            Some(Opcode::Store) => match store(self, ra, rb, rc) {
                Ok(()) => Event::Continue,
                Err(fault) => {
                    return Event::Fault(fault);
                },
            },
            Some(Opcode::Add) => {
                crate::instructions::add(self, ra, rb, rc);
                Event::Continue
            },
            Some(Opcode::Mul) => {
                crate::instructions::mul(self, ra, rb, rc);
                Event::Continue
            },
            Some(Opcode::Div) => match div(self, ra, rb, rc) {
                Ok(()) => Event::Continue,
                Err(fault) => {
                    return Event::Fault(fault);
                },
            },
            Some(Opcode::Nand) => {
                nand(self, ra, rb, rc);
                Event::Continue
            },
            Some(Opcode::Halt) => {
                return Event::Halt;
            },
            Some(Opcode::MapSeg) => match mapseg(self, rb, rc) {
                Ok(()) => Event::Continue,
                Err(fault) => {
                    return Event::Fault(fault);
                },
            },
            Some(Opcode::UMapSeg) => match umapseg(self, rc) {
                Ok(()) => Event::Continue,
                Err(fault) => {
                    return Event::Fault(fault);
                },
            },
            Some(Opcode::Out) => match out(self, rc) {
                Ok(ch) => Event::Output(ch),
                Err(fault) => {
                    return Event::Fault(fault);
                },
            },
            Some(Opcode::In) => Event::Input(rc),
            Some(Opcode::LP) => {
                return match lp(self, rb, rc) {
                    Ok(()) => Event::Continue,
                    Err(fault) => Event::Fault(fault),
                };
            },
            Some(Opcode::LV) => {
                lv(self, get(&Field::rl(), word), get(&Field::vl(), word));
                Event::Continue
            },
        };
        self.program_counter += 1;
        event
    }

    /// Runs up to `budget` instructions and returns what the last of them
    /// reported. It returns before the budget is spent as soon as an
    /// instruction reports anything but `Event::Continue`: a halt, a fault,
    /// or work for the host.
    pub fn run_program(&mut self, budget: u64) -> (event: Event)
        requires
            old(self).wf(),
        ensures
            (final(self)@, event) == old(self)@.run(budget as nat),
            final(self).wf(),
    {
        let mut left = budget;
        let mut event = Event::Continue;
        while left > 0 && matches!(event, Event::Continue)
            invariant
                self.wf(),
                event == Event::Continue ==> old(self)@.run(budget as nat) == self@.run(
                    left as nat,
                ),
                event != Event::Continue ==> old(self)@.run(budget as nat) == (self@, event),
            decreases left,
        {
            event = self.step();
            left -= 1;
        }
        event
    }
}

} // verus!
