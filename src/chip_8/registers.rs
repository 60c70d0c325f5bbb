use vstd::prelude::*;

verus! {

/// The register file: sixteen general registers, the index register, the
/// program counter and the two timers.
pub struct Registers {
    pub v: [u8; 16],
    pub dt: u8,
    pub st: u8,
    pub i: u16,
    pub pc: u16,
}

impl Registers {
    /// All registers zero.
    pub fn new() -> (r: Registers)
        ensures
            r.v@ == Seq::new(16, |k: int| 0u8),
            r.dt == 0,
            r.st == 0,
            r.i == 0,
            r.pc == 0,
    {
        let r = Registers { v: [0u8; 16], dt: 0, st: 0, i: 0, pc: 0 };
        assert(r.v@ =~= Seq::new(16, |k: int| 0u8));
        r
    }
}

} // verus!
