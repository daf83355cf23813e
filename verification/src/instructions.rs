use vstd::prelude::*;
use crate::laws::map_keeps_wf;
use crate::laws::unmap_keeps_wf;
use crate::machine::Fault;
use crate::machine::Input;
use crate::machine::zeros;
use crate::um::Um;

verus! {

/// Conditional move: register `ra` takes register `rb` unless register `rc`
/// is zero.
pub fn cmov(um: &mut Um, ra: u32, rb: u32, rc: u32)
    requires
        ra < 8,
        rb < 8,
        rc < 8,
    ensures
        final(um)@ == old(um)@.cmov(ra, rb, rc),
        old(um).wf() ==> final(um).wf(),
{
    if um.reg[rc as usize] != 0 {
        um.reg[ra as usize] = um.reg[rb as usize];
    }
}

/// Segmented load: register `ra` takes word `reg[rc]` of segment `reg[rb]`.
pub fn load(um: &mut Um, ra: u32, rb: u32, rc: u32) -> (done: Result<(), Fault>)
    requires
        ra < 8,
        rb < 8,
        rc < 8,
    ensures
        match old(um)@.load(ra, rb, rc) {
            Ok(next) => done is Ok && final(um)@ == next,
            Err(fault) => done == Err::<(), Fault>(fault) && final(um)@ == old(um)@,
        },
        old(um).wf() ==> final(um).wf(),
{
    let id = um.reg[rb as usize] as usize;
    let at = um.reg[rc as usize] as usize;
    if id >= um.mem.len() {
        return Err(Fault::UnmappedSegment);
    }
    match &um.mem[id] {
        None => Err(Fault::UnmappedSegment),
        Some(segment) => {
            if at >= segment.len() {
                return Err(Fault::OutOfBounds);
            }
            let word = segment[at];
            um.reg[ra as usize] = word;
            Ok(())
        },
    }
}

/// Segmented store: word `reg[rb]` of segment `reg[ra]` takes register `rc`.
pub fn store(um: &mut Um, ra: u32, rb: u32, rc: u32) -> (done: Result<(), Fault>)
    requires
        ra < 8,
        rb < 8,
        rc < 8,
    ensures
        match old(um)@.store(ra, rb, rc) {
            Ok(next) => done is Ok && final(um)@ == next,
            Err(fault) => done == Err::<(), Fault>(fault) && final(um)@ == old(um)@,
        },
        old(um).wf() ==> final(um).wf(),
{
    let id = um.reg[ra as usize] as usize;
    let at = um.reg[rb as usize] as usize;
    let word = um.reg[rc as usize];
    if id >= um.mem.len() {
        return Err(Fault::UnmappedSegment);
    }
    let done = match &mut um.mem[id] {
        None => Err(Fault::UnmappedSegment),
        Some(segment) => {
            if at < segment.len() {
                segment[at] = word;
                Ok(())
            } else {
                Err(Fault::OutOfBounds)
            }
        },
    };
    assert(um@ =~~= (match old(um)@.store(ra, rb, rc) {
        Ok(next) => next,
        Err(_) => old(um)@,
    }));
    done
}

/// Addition modulo 2^32: register `ra` takes the sum of registers `rb` and
/// `rc`.
pub fn add(um: &mut Um, ra: u32, rb: u32, rc: u32)
    requires
        ra < 8,
        rb < 8,
        rc < 8,
    ensures
        final(um)@ == old(um)@.add(ra, rb, rc),
        old(um).wf() ==> final(um).wf(),
{
    let sum = um.reg[rb as usize] as u64 + um.reg[rc as usize] as u64;
    um.reg[ra as usize] = (sum % 0x1_0000_0000) as u32;
}

/// Multiplication modulo 2^32: register `ra` takes the product of registers
/// `rb` and `rc`.
pub fn mul(um: &mut Um, ra: u32, rb: u32, rc: u32)
    requires
        ra < 8,
        rb < 8,
        rc < 8,
    ensures
        final(um)@ == old(um)@.mul(ra, rb, rc),
        old(um).wf() ==> final(um).wf(),
{
    let b = um.reg[rb as usize] as u64;
    let c = um.reg[rc as usize] as u64;
    assert(b * c <= 0xFFFF_FFFF * 0xFFFF_FFFF) by (nonlinear_arith)
        requires
            b <= 0xFFFF_FFFF,
            c <= 0xFFFF_FFFF,
    ;
    um.reg[ra as usize] = ((b * c) % 0x1_0000_0000) as u32;
}

/// Unsigned division: register `ra` takes register `rb` divided by register
/// `rc`, rounded down. A zero divisor is a fault.
pub fn div(um: &mut Um, ra: u32, rb: u32, rc: u32) -> (done: Result<(), Fault>)
    requires
        ra < 8,
        rb < 8,
        rc < 8,
    ensures
        match old(um)@.div(ra, rb, rc) {
            Ok(next) => done is Ok && final(um)@ == next,
            Err(fault) => done == Err::<(), Fault>(fault) && final(um)@ == old(um)@,
        },
        old(um).wf() ==> final(um).wf(),
{
    if um.reg[rc as usize] == 0 {
        return Err(Fault::DivisionByZero);
    }
    um.reg[ra as usize] = um.reg[rb as usize] / um.reg[rc as usize];
    Ok(())
}

/// Bitwise not-and: register `ra` takes the complement of the bits that
/// registers `rb` and `rc` share.
pub fn nand(um: &mut Um, ra: u32, rb: u32, rc: u32)
    requires
        ra < 8,
        rb < 8,
        rc < 8,
    ensures
        final(um)@ == old(um)@.nand(ra, rb, rc),
        old(um).wf() ==> final(um).wf(),
{
    um.reg[ra as usize] = !(um.reg[rb as usize] & um.reg[rc as usize]);
}

/// Map segment: maps a new segment of `reg[rc]` zero words and puts its
/// identifier into register `rb`. The identifier is the one reclaimed last,
/// or else the one past all that were ever issued.
pub fn mapseg(um: &mut Um, rb: u32, rc: u32) -> (done: Result<(), Fault>)
    requires
        old(um).wf(),
        rb < 8,
        rc < 8,
    ensures
        match old(um)@.map(rb, rc) {
            Ok(next) => done is Ok && final(um)@ == next,
            Err(fault) => done == Err::<(), Fault>(fault) && final(um)@ == old(um)@,
        },
        final(um).wf(),
{
    let size = um.reg[rc as usize] as usize;
    if um.empty_keys.len() > 0 {
        let id = um.empty_keys.pop().unwrap();
        let fresh: Vec<u32> = vec![0u32; size];
        assert(fresh@ =~= zeros(size as u32));
        um.mem[id as usize] = Some(fresh);
        um.reg[rb as usize] = id;
        assert(um@ =~~= old(um)@.map(rb, rc)->Ok_0);
        proof {
            map_keeps_wf(old(um)@, rb, rc);
        }
        Ok(())
    } else if um.mem.len() > u32::MAX as usize {
        Err(Fault::SegmentsExhausted)
    } else {
        let id = um.mem.len() as u32;
        let fresh: Vec<u32> = vec![0u32; size];
        assert(fresh@ =~= zeros(size as u32));
        um.mem.push(Some(fresh));
        um.reg[rb as usize] = id;
        assert(um@ =~~= old(um)@.map(rb, rc)->Ok_0);
        proof {
            map_keeps_wf(old(um)@, rb, rc);
        }
        Ok(())
    }
}

/// Unmap segment: reclaims segment `reg[rc]` and returns its identifier to
/// the free pool. Segment 0 cannot be unmapped.
pub fn umapseg(um: &mut Um, rc: u32) -> (done: Result<(), Fault>)
    requires
        rc < 8,
    ensures
        match old(um)@.unmap(rc) {
            Ok(next) => done is Ok && final(um)@ == next,
            Err(fault) => done == Err::<(), Fault>(fault) && final(um)@ == old(um)@,
        },
        old(um).wf() ==> final(um).wf(),
{
    let id = um.reg[rc as usize];
    if id as usize >= um.mem.len() {
        return Err(Fault::UnmappedSegment);
    }
    if um.mem[id as usize].is_none() {
        return Err(Fault::UnmappedSegment);
    }
    if id == 0 {
        return Err(Fault::ReservedSegment);
    }
    um.mem[id as usize] = None;
    um.empty_keys.push(id);
    assert(um@ =~~= old(um)@.unmap(rc)->Ok_0);
    proof {
        if old(um).wf() {
            unmap_keeps_wf(old(um)@, rc);
        }
    }
    Ok(())
}

/// Input: register `rc` takes the byte that the host read, or all ones where
/// the stream had ended. A failed read is a fault.
pub fn input(um: &mut Um, rc: u32, read: Input) -> (done: Result<(), Fault>)
    requires
        rc < 8,
    ensures
        match old(um)@.input(rc, read) {
            Ok(next) => done is Ok && final(um)@ == next,
            Err(fault) => done == Err::<(), Fault>(fault) && final(um)@ == old(um)@,
        },
        old(um).wf() ==> final(um).wf(),
{
    match read {
        Input::Byte(byte) => {
            um.reg[rc as usize] = byte as u32;
            Ok(())
        },
        Input::End => {
            um.reg[rc as usize] = u32::MAX;
            Ok(())
        },
        Input::Failed => Err(Fault::InputFailure),
    }
}

/// Output: the character whose code point is register `rc`, for the host to
/// emit. A value above 255 is a fault.
pub fn out(um: &Um, rc: u32) -> (done: Result<char, Fault>)
    requires
        rc < 8,
    ensures
        done == um@.out(rc),
{
    let value = um.reg[rc as usize];
    if value > 255 {
        return Err(Fault::InvalidOutput);
    }
    Ok(value as u8 as char)
}

/// Load program: segment 0 becomes a copy of segment `reg[rb]`, and the
/// program counter becomes `reg[rc]`. Where `reg[rb]` is 0 nothing is
/// copied: the program stays and only the program counter moves.
pub fn lp(um: &mut Um, rb: u32, rc: u32) -> (done: Result<(), Fault>)
    requires
        rb < 8,
        rc < 8,
    ensures
        match old(um)@.lp(rb, rc) {
            Ok(next) => done is Ok && final(um)@ == next,
            Err(fault) => done == Err::<(), Fault>(fault) && final(um)@ == old(um)@,
        },
        old(um).wf() ==> final(um).wf(),
{
    let id = um.reg[rb as usize] as usize;
    if id >= um.mem.len() {
        return Err(Fault::UnmappedSegment);
    }
    let copy = match &um.mem[id] {
        None => {
            return Err(Fault::UnmappedSegment);
        },
        Some(segment) => if id == 0 {
            None
        } else {
            Some(segment.clone())
        },
    };
    if copy.is_some() {
        um.mem[0] = copy;
    }
    um.program_counter = um.reg[rc as usize] as usize;
    assert(um@ =~~= old(um)@.lp(rb, rc)->Ok_0);
    Ok(())
}

/// Load value: register `ra` takes `value`.
pub fn lv(um: &mut Um, ra: u32, value: u32)
    requires
        ra < 8,
    ensures
        final(um)@ == old(um)@.lv(ra, value),
        old(um).wf() ==> final(um).wf(),
{
    um.reg[ra as usize] = value;
}

} // verus!
