use vstd::prelude::*;
use crate::machine::zeros;
use crate::machine::Event;
use crate::machine::Fault;
use crate::machine::Input;
use crate::machine::Machine;
use crate::um::Field;
use crate::um::Opcode;

verus! {

/// The instruction word that loads `value` into register `r`.
pub open spec fn load_value_word(r: u32, value: u32) -> u32 {
    (13u32 << 28u32) | (r << 25u32) | value
}

/// The instruction word of a three-register operation.
pub open spec fn operation_word(code: u32, a: u32, b: u32, c: u32) -> u32 {
    (code << 28u32) | (a << 6u32) | (b << 3u32) | c
}

/// The machine is about to run `word`.
pub open spec fn at_word(m: Machine, word: u32) -> bool {
    m.pc < m.segment(0).len() && m.segment(0)[m.pc as int] == word
}

/// The value of a field is the word divided by two to the field's lowest
/// bit, taken modulo two to the field's width.
pub proof fn field_is_quotient_and_remainder(field: Field, word: u32)
    requires
        field.valid(),
    ensures
        field.extract(word) == (word as nat / vstd::arithmetic::power2::pow2(field.lsb as nat))
            % vstd::arithmetic::power2::pow2(field.width as nat),
        field.extract(word) < vstd::arithmetic::power2::pow2(field.width as nat),
{
    let shifted = word >> field.lsb;
    vstd::bits::lemma_u32_pow2_no_overflow(field.width as nat);
    vstd::arithmetic::power2::lemma_pow2_pos(field.width as nat);
    vstd::bits::lemma_u32_shl_is_mul(1u32, field.width);
    vstd::bits::lemma_u32_shr_is_div(word, field.lsb);
    vstd::bits::lemma_u32_low_bits_mask_is_mod(shifted, field.width as nat);
}

/// Each field of a word is the quotient and remainder that its position
/// and width name.
pub proof fn fields_are_digits(word: u32)
    ensures
        Field::op().extract(word) == word / 0x1000_0000,
        Field::ra().extract(word) == (word / 64) % 8,
        Field::rb().extract(word) == (word / 8) % 8,
        Field::rc().extract(word) == word % 8,
        Field::rl().extract(word) == (word / 0x200_0000) % 8,
        Field::vl().extract(word) == word % 0x200_0000,
{
    assert(((word >> 28u32) & (((1u32 << 4u32) - 1) as u32)) == word / 0x1000_0000)
        by (bit_vector);
    assert(((word >> 6u32) & (((1u32 << 3u32) - 1) as u32)) == (word / 64) % 8) by (bit_vector);
    assert(((word >> 3u32) & (((1u32 << 3u32) - 1) as u32)) == (word / 8) % 8) by (bit_vector);
    assert(((word >> 0u32) & (((1u32 << 3u32) - 1) as u32)) == word % 8) by (bit_vector);
    assert(((word >> 25u32) & (((1u32 << 3u32) - 1) as u32)) == (word / 0x200_0000) % 8)
        by (bit_vector);
    assert(((word >> 0u32) & (((1u32 << 25u32) - 1) as u32)) == word % 0x200_0000)
        by (bit_vector);
}

/// The register fields of every word are below 8, its opcode field below
/// 16, and its load-value immediate below 2^25.
pub proof fn fields_are_bounded(word: u32)
    ensures
        Field::ra().extract(word) < 8,
        Field::rb().extract(word) < 8,
        Field::rc().extract(word) < 8,
        Field::rl().extract(word) < 8,
        Field::op().extract(word) < 16,
        Field::vl().extract(word) < 0x200_0000,
{
    fields_are_digits(word);
}

/// A load-value word decodes to the register and the value it was made of.
pub proof fn load_value_word_decodes(r: u32, value: u32)
    requires
        r < 8,
        value < 0x200_0000,
    ensures
        Field::op().extract(load_value_word(r, value)) == 13,
        Field::rl().extract(load_value_word(r, value)) == r,
        Field::vl().extract(load_value_word(r, value)) == value,
{
    let word = load_value_word(r, value);
    assert(((word >> 28u32) & (((1u32 << 4u32) - 1) as u32)) == 13 && ((word >> 25u32) & (((1u32
        << 3u32) - 1) as u32)) == r && ((word >> 0u32) & (((1u32 << 25u32) - 1) as u32)) == value)
        by (bit_vector)
        requires
            r < 8,
            value < 0x200_0000,
            word == (13u32 << 28u32) | (r << 25u32) | value,
    ;
}

/// A three-register word decodes to the code and the registers it was made
/// of.
pub proof fn operation_word_decodes(code: u32, a: u32, b: u32, c: u32)
    requires
        code < 16,
        a < 8,
        b < 8,
        c < 8,
    ensures
        Field::op().extract(operation_word(code, a, b, c)) == code,
        Field::ra().extract(operation_word(code, a, b, c)) == a,
        Field::rb().extract(operation_word(code, a, b, c)) == b,
        Field::rc().extract(operation_word(code, a, b, c)) == c,
{
    let word = operation_word(code, a, b, c);
    assert(((word >> 28u32) & (((1u32 << 4u32) - 1) as u32)) == code && ((word >> 6u32) & (((1u32
        << 3u32) - 1) as u32)) == a && ((word >> 3u32) & (((1u32 << 3u32) - 1) as u32)) == b && ((
    word >> 0u32) & (((1u32 << 3u32) - 1) as u32)) == c) by (bit_vector)
        requires
            code < 16,
            a < 8,
            b < 8,
            c < 8,
            word == (code << 28u32) | (a << 6u32) | (b << 3u32) | c,
    ;
}

/// Loading a value into a register and reading the register gives the
/// value back, whatever 32-bit value it is, and leaves the other registers.
pub proof fn load_value_round_trip(m: Machine, r: u32, value: u32)
    requires
        m.reg.len() == 8,
        r < 8,
    ensures
        m.lv(r, value).reg[r as int] == value,
        forall|other: int|
            0 <= other < 8 && other != r ==> m.lv(r, value).reg[other] == m.reg[other],
{
}

/// Running a load-value instruction puts its immediate into its register:
/// every value that the 25 bits of the immediate can hold comes back.
pub proof fn load_value_instruction_round_trip(m: Machine, r: u32, value: u32)
    requires
        m.wf(),
        r < 8,
        value < 0x200_0000,
        at_word(m, load_value_word(r, value)),
    ensures
        m.step().1 == Event::Continue,
        m.step().0.reg[r as int] == value,
        m.step().0.pc == m.pc + 1,
{
    load_value_word_decodes(r, value);
}

/// Addition does not depend on the order of its operands.
pub proof fn add_commutes(m: Machine, a: u32, b: u32, c: u32)
    ensures
        m.add(a, b, c) == m.add(a, c, b),
{
}

/// Multiplication does not depend on the order of its operands.
pub proof fn mul_commutes(m: Machine, a: u32, b: u32, c: u32)
    ensures
        m.mul(a, b, c) == m.mul(a, c, b),
{
    assert(m.reg[b as int] * m.reg[c as int] == m.reg[c as int] * m.reg[b as int])
        by (nonlinear_arith);
}

/// A sum that fits in 32 bits is exact; one that does not loses 2^32.
pub proof fn add_wraps(m: Machine, a: u32, b: u32, c: u32)
    requires
        m.reg.len() == 8,
        a < 8,
        b < 8,
        c < 8,
    ensures
        m.add(a, b, c).reg[a as int] == if m.reg[b as int] + m.reg[c as int] < 0x1_0000_0000 {
            m.reg[b as int] + m.reg[c as int]
        } else {
            m.reg[b as int] + m.reg[c as int] - 0x1_0000_0000
        },
{
}

/// A conditional move copies register `b` for every nonzero register `c`,
/// and does nothing where register `c` is zero.
pub proof fn cmov_moves_unless_zero(m: Machine, a: u32, b: u32, c: u32)
    requires
        m.reg.len() == 8,
        a < 8,
        b < 8,
        c < 8,
    ensures
        m.reg[c as int] == 0 ==> m.cmov(a, b, c) == m,
        m.reg[c as int] != 0 ==> m.cmov(a, b, c).reg == m.reg.update(a as int, m.reg[b as int]),
        m.reg[c as int] != 0 ==> m.cmov(a, b, c).reg[a as int] == m.reg[b as int],
        m.cmov(a, b, c).mem == m.mem,
        m.cmov(a, b, c).pc == m.pc,
        m.cmov(a, b, c).free == m.free,
{
}

/// A division by zero is a fault, whatever the dividend.
pub proof fn div_by_zero_faults(m: Machine, a: u32, b: u32, c: u32)
    requires
        m.reg[c as int] == 0,
    ensures
        m.div(a, b, c) == Err::<Machine, Fault>(Fault::DivisionByZero),
{
}

/// Mapping a segment keeps the machine well formed.
pub proof fn map_keeps_wf(m: Machine, b: u32, c: u32)
    requires
        m.wf(),
        b < 8,
        m.map(b, c) is Ok,
    ensures
        m.map(b, c)->Ok_0.wf(),
{
    let next = m.map(b, c)->Ok_0;
    if m.free.len() > 0 {
        let last = m.free.len() - 1;
        let id = m.free[last];
        assert forall|i: int| 0 <= i < next.free.len() implies (#[trigger] next.free[i])
            < next.mem.len() && next.mem[next.free[i] as int] is None by {
            assert(next.free[i] == m.free[i]);
            assert(m.free[i] != m.free[last]);
        }
        assert forall|other: int|
            0 <= other < next.mem.len() && (#[trigger] next.mem[other]) is None implies
            next.free.contains(other as u32) by {
            assert(m.mem[other] is None);
            let j = choose|j: int| 0 <= j < m.free.len() && m.free[j] == other as u32;
            assert(next.free[j] == other as u32);
        }
    } else {
        assert forall|other: int|
            0 <= other < next.mem.len() && (#[trigger] next.mem[other]) is None implies
            next.free.contains(other as u32) by {
            assert(m.mem[other] is None);
            assert(m.free.contains(other as u32));
        }
    }
}

/// Unmapping a segment keeps the machine well formed.
pub proof fn unmap_keeps_wf(m: Machine, c: u32)
    requires
        m.wf(),
        m.unmap(c) is Ok,
    ensures
        m.unmap(c)->Ok_0.wf(),
{
    let next = m.unmap(c)->Ok_0;
    let id = m.reg[c as int];
    assert forall|i: int| 0 <= i < next.free.len() implies (#[trigger] next.free[i])
        < next.mem.len() && next.mem[next.free[i] as int] is None by {
        if i < m.free.len() {
            assert(next.free[i] == m.free[i]);
        }
    }
    assert forall|i: int, j: int|
        0 <= i < next.free.len() && 0 <= j < next.free.len() && i != j implies next.free[i]
        != next.free[j] by {
        if i < m.free.len() {
            assert(next.free[i] == m.free[i]);
        }
        if j < m.free.len() {
            assert(next.free[j] == m.free[j]);
        }
    }
    assert forall|other: int|
        0 <= other < next.mem.len() && (#[trigger] next.mem[other]) is None implies
        next.free.contains(other as u32) by {
        if other == id {
            assert(next.free[m.free.len() as int] == id);
        } else {
            assert(m.mem[other] is None);
            let j = choose|j: int| 0 <= j < m.free.len() && m.free[j] == other as u32;
            assert(next.free[j] == other as u32);
        }
    }
}

/// Map-segment never issues identifier 0 nor one that is in use; the new
/// segment has the length asked for and holds zeros only; and every other
/// segment stays as it was.
pub proof fn map_issues_an_unused_identifier(m: Machine, b: u32, c: u32)
    requires
        m.wf(),
        b < 8,
        c < 8,
        m.map(b, c) is Ok,
    ensures
        ({
            let next = m.map(b, c)->Ok_0;
            let id = next.reg[b as int];
            &&& id != 0
            &&& id == m.next_id()
            &&& !m.mapped(id)
            &&& next.mapped(id)
            &&& next.segment(id).len() == m.reg[c as int]
            &&& forall|i: int| 0 <= i < next.segment(id).len() ==> next.segment(id)[i] == 0
            &&& forall|other: u32|
                other != id ==> next.mapped(other) == m.mapped(other) && (m.mapped(other)
                    ==> next.segment(other) == m.segment(other))
        }),
{
    if m.free.len() > 0 {
        let last = m.free.len() - 1;
        assert(m.free[last] < m.mem.len());
    }
}

/// After a segment is unmapped, the next map-segment issues its identifier
/// again, for an all-zero segment of the length then asked for.
pub proof fn unmap_then_map_reuses(m: Machine, doomed: u32, b: u32, c: u32)
    requires
        m.wf(),
        doomed < 8,
        b < 8,
        c < 8,
        m.unmap(doomed) is Ok,
    ensures
        ({
            let id = m.reg[doomed as int];
            let reclaimed = m.unmap(doomed)->Ok_0;
            &&& reclaimed.map(b, c) is Ok
            &&& reclaimed.map(b, c)->Ok_0.reg[b as int] == id
            &&& reclaimed.map(b, c)->Ok_0.mapped(id)
            &&& reclaimed.map(b, c)->Ok_0.segment(id) == zeros(m.reg[c as int])
        }),
{
}

/// Map, unmap, map: the second map-segment gives the identifier of the
/// first, and the segment it names is all zero and of the length asked for
/// the second time.
pub proof fn map_unmap_map(m: Machine, b: u32, c: u32, doomed: u32, b2: u32, c2: u32)
    requires
        m.wf(),
        b < 8,
        c < 8,
        doomed < 8,
        b2 < 8,
        c2 < 8,
        m.map(b, c) is Ok,
        m.map(b, c)->Ok_0.reg[doomed as int] == m.map(b, c)->Ok_0.reg[b as int],
    ensures
        ({
            let first = m.map(b, c)->Ok_0;
            let id = first.reg[b as int];
            &&& first.unmap(doomed) is Ok
            &&& first.unmap(doomed)->Ok_0.map(b2, c2) is Ok
            &&& ({
                let second = first.unmap(doomed)->Ok_0.map(b2, c2)->Ok_0;
                &&& second.reg[b2 as int] == id
                &&& second.mapped(id)
                &&& second.segment(id).len() == first.reg[c2 as int]
                &&& forall|i: int|
                    0 <= i < second.segment(id).len() ==> second.segment(id)[i] == 0
            })
        }),
{
    map_issues_an_unused_identifier(m, b, c);
    map_keeps_wf(m, b, c);
    unmap_then_map_reuses(m.map(b, c)->Ok_0, doomed, b2, c2);
}

/// Stores into a segment do not outlive it: once the segment is unmapped
/// and its identifier is issued again, every word under it is zero.
pub proof fn remapped_segment_forgets(
    m: Machine,
    a: u32,
    b: u32,
    c: u32,
    doomed: u32,
    b2: u32,
    c2: u32,
)
    requires
        m.wf(),
        a < 8,
        b < 8,
        c < 8,
        doomed < 8,
        b2 < 8,
        c2 < 8,
        m.store(a, b, c) is Ok,
        m.reg[doomed as int] == m.reg[a as int],
        m.reg[a as int] != 0,
    ensures
        ({
            let id = m.reg[a as int];
            let written = m.store(a, b, c)->Ok_0;
            &&& written.segment(id)[m.reg[b as int] as int] == m.reg[c as int]
            &&& written.unmap(doomed) is Ok
            &&& written.unmap(doomed)->Ok_0.map(b2, c2) is Ok
            &&& written.unmap(doomed)->Ok_0.map(b2, c2)->Ok_0.reg[b2 as int] == id
            &&& written.unmap(doomed)->Ok_0.map(b2, c2)->Ok_0.segment(id) == zeros(
                m.reg[c2 as int],
            )
        }),
{
    unmap_then_map_reuses(m.store(a, b, c)->Ok_0, doomed, b2, c2);
}

/// A load or a store through an identifier that was never issued, or that
/// was unmapped and not issued again, is an unmapped-segment fault.
pub proof fn unmapped_access_faults(m: Machine, a: u32, b: u32, c: u32)
    requires
        m.reg.len() == 8,
        a < 8,
        b < 8,
        c < 8,
    ensures
        !m.mapped(m.reg[b as int]) ==> m.load(a, b, c) == Err::<Machine, Fault>(
            Fault::UnmappedSegment,
        ),
        !m.mapped(m.reg[a as int]) ==> m.store(a, b, c) == Err::<Machine, Fault>(
            Fault::UnmappedSegment,
        ),
{
}

/// Right after a segment is unmapped, a load or a store through its
/// identifier is an unmapped-segment fault.
pub proof fn access_after_unmap_faults(m: Machine, doomed: u32, a: u32, b: u32, c: u32)
    requires
        m.wf(),
        doomed < 8,
        a < 8,
        b < 8,
        c < 8,
        m.unmap(doomed) is Ok,
    ensures
        ({
            let id = m.reg[doomed as int];
            let reclaimed = m.unmap(doomed)->Ok_0;
            &&& !reclaimed.mapped(id)
            &&& reclaimed.reg[b as int] == id ==> reclaimed.load(a, b, c) == Err::<Machine, Fault>(
                Fault::UnmappedSegment,
            )
            &&& reclaimed.reg[a as int] == id ==> reclaimed.store(a, b, c) == Err::<
                Machine,
                Fault,
            >(Fault::UnmappedSegment)
            &&& reclaimed.reg[b as int] == id ==> reclaimed.lp(b, c) == Err::<Machine, Fault>(
                Fault::UnmappedSegment,
            )
            &&& reclaimed.unmap(doomed) == Err::<Machine, Fault>(Fault::UnmappedSegment)
        }),
{
}

/// A load-program instruction continues at word `reg[c]` of the copy, with
/// nothing added to the program counter.
pub proof fn load_program_jumps(m: Machine, b: u32, c: u32)
    requires
        m.wf(),
        b < 8,
        c < 8,
        at_word(m, operation_word(12, 0, b, c)),
        m.mapped(m.reg[b as int]),
    ensures
        ({
            let (next, event) = m.step();
            &&& event == Event::Continue
            &&& next.pc == m.reg[c as int]
            &&& next.segment(0) == m.segment(m.reg[b as int])
            &&& next.reg == m.reg
            &&& next.pc < next.segment(0).len() ==> at_word(
                next,
                m.segment(m.reg[b as int])[m.reg[c as int] as int],
            )
        }),
{
    operation_word_decodes(12, 0, b, c);
}

/// A word whose four highest bits hold 14 or 15 is no instruction: running
/// it is a fault.
pub proof fn codes_above_thirteen_are_invalid(m: Machine, word: u32)
    requires
        at_word(m, word),
        word >= 0xE000_0000,
    ensures
        m.step() == (m, Event::Fault(Fault::InvalidInstruction)),
{
    fields_are_digits(word);
}

/// A halt instruction ends the program and changes nothing, whatever its
/// other bits hold.
pub proof fn halt_instruction_halts(m: Machine, word: u32)
    requires
        at_word(m, word),
        0x7000_0000 <= word < 0x8000_0000,
    ensures
        m.step() == (m, Event::Halt),
{
    fields_are_digits(word);
}

/// A machine whose program counter is beyond its program faults.
pub proof fn running_off_the_program_faults(m: Machine)
    requires
        m.pc >= m.segment(0).len(),
    ensures
        m.step() == (m, Event::Fault(Fault::OutOfBounds)),
{
}

/// An output instruction changes nothing but the program counter, and
/// hands the host the character whose code point is register `c`.
pub proof fn output_instruction_emits(m: Machine, c: u32)
    requires
        m.wf(),
        c < 8,
        at_word(m, operation_word(10, 0, 0, c)),
        m.reg[c as int] <= 255,
    ensures
        m.step() == (m.advance(), Event::Output(m.reg[c as int] as char)),
        (m.reg[c as int] as char) as u32 == m.reg[c as int],
{
    operation_word_decodes(10, 0, 0, c);
}

/// An input instruction asks the host for a read and moves on; once the
/// host has handed the byte to `input`, register `c` holds it, and at the
/// end of the stream it holds all ones.
pub proof fn input_instruction_takes_the_byte(m: Machine, c: u32, byte: u8)
    requires
        m.wf(),
        c < 8,
        at_word(m, operation_word(11, 0, 0, c)),
    ensures
        m.step() == (m.advance(), Event::Input(c)),
        m.step().0.input(c, Input::Byte(byte)) == Ok::<Machine, Fault>(
            m.set_reg(c, byte as u32).advance(),
        ),
        m.step().0.input(c, Input::End) == Ok::<Machine, Fault>(
            m.set_reg(c, 0xFFFF_FFFF).advance(),
        ),
        m.step().0.input(c, Input::Failed) == Err::<Machine, Fault>(Fault::InputFailure),
{
    operation_word_decodes(11, 0, 0, c);
}

/// Every instruction keeps the machine well formed.
pub proof fn step_keeps_wf(m: Machine)
    requires
        m.wf(),
    ensures
        m.step().0.wf(),
{
    if m.pc < m.segment(0).len() {
        let word = m.segment(0)[m.pc as int];
        fields_are_bounded(word);
        let a = Field::ra().extract(word);
        let b = Field::rb().extract(word);
        let c = Field::rc().extract(word);
        match Opcode::from_code(Field::op().extract(word)) {
            Some(Opcode::MapSeg) => {
                if m.map(b, c) is Ok {
                    map_keeps_wf(m, b, c);
                }
            },
            Some(Opcode::UMapSeg) => {
                if m.unmap(c) is Ok {
                    unmap_keeps_wf(m, c);
                }
            },
            _ => {},
        }
    }
}

/// A fault leaves the machine as it was before the instruction, and so
/// does a halt.
pub proof fn fault_and_halt_change_nothing(m: Machine)
    ensures
        m.step().1 is Fault ==> m.step().0 == m,
        m.step().1 is Halt ==> m.step().0 == m,
{
}

/// Any number of instructions keeps the machine well formed.
pub proof fn run_keeps_wf(m: Machine, budget: nat)
    requires
        m.wf(),
    ensures
        m.run(budget).0.wf(),
    decreases budget,
{
    if budget > 0 {
        step_keeps_wf(m);
        if m.step().1 == Event::Continue {
            run_keeps_wf(m.step().0, (budget - 1) as nat);
        }
    }
}

/// A run can be cut in two: running `first` instructions and `rest` more
/// after them is one run of `first + rest`, as long as the first part did
/// not stop early.
pub proof fn run_splits(m: Machine, first: nat, rest: nat)
    requires
        m.run(first).1 == Event::Continue,
    ensures
        m.run(first + rest) == m.run(first).0.run(rest),
    decreases first,
{
    if first > 0 {
        if m.step().1 == Event::Continue {
            run_splits(m.step().0, (first - 1) as nat, rest);
            assert(m.run(first + rest) == m.step().0.run((first + rest - 1) as nat));
        }
    }
}

} // verus!
