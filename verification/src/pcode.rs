use vstd::prelude::*;

verus! {

/// The stack-machine opcodes.
///
/// `NIL` marks an uninitialised instruction and is never emitted by the
/// translator; the virtual machine refuses it.  `STA` copies an actual
/// argument, already evaluated below the new frame, into the parameter slot
/// of the frame being entered.
#[derive(Debug, Clone, Copy, PartialEq, Eq, Structural, Default)]
pub enum PcodeType {
    #[default]
    NIL,
    LIT,
    OPR,
    LOD,
    STO,
    STA,
    CAL,
    INT,
    JMP,
    JPC,
    RED,
    WRT,
}

/// One stack-machine instruction: opcode `f`, level difference `l`,
/// operand `a`.
#[derive(Debug, Clone, Copy, PartialEq, Eq, Structural, Default)]
pub struct Pcode {
    pub f: PcodeType,
    pub l: usize,
    pub a: i64,
}

impl Pcode {
    pub fn set_l(&mut self, l: usize)
        ensures
            *final(self) == (Pcode { l, ..*old(self) }),
    {
        self.l = l;
    }

    pub fn set_a(&mut self, a: i64)
        ensures
            *final(self) == (Pcode { a, ..*old(self) }),
    {
        self.a = a;
    }
}

/// The instruction list with the operand at `i` replaced, or unchanged when
/// `i` lies outside it.
pub open spec fn patch_a_spec(code: Seq<Pcode>, i: usize, a: i64) -> Seq<Pcode> {
    if i < code.len() {
        code.update(i as int, Pcode { a, ..code[i as int] })
    } else {
        code
    }
}

/// The growing instruction list that the translator emits into.
#[derive(Debug, Clone)]
#[verifier::ext_equal]
pub struct PCodeManager {
    pub pcode_list: Vec<Pcode>,
}

impl PCodeManager {
    pub fn new() -> (r: Self)
        ensures
            r.pcode_list@ == Seq::<Pcode>::empty(),
    {
        PCodeManager { pcode_list: Vec::new() }
    }

    /// The index that the next emitted instruction will occupy.
    pub fn get_pcode_ptr(&self) -> (r: usize)
        ensures
            r == self.pcode_list@.len(),
    {
        self.pcode_list.len()
    }

    /// An identical copy of the instruction list.
    pub fn duplicate(&self) -> (r: PCodeManager)
        ensures
            r.pcode_list@ == self.pcode_list@,
    {
        let mut list: Vec<Pcode> = Vec::new();
        let n = self.pcode_list.len();
        let mut i: usize = 0;
        while i < n
            invariant
                0 <= i <= n,
                list@ == self.pcode_list@.take(i as int),
            decreases n - i,
        {
            list.push(self.pcode_list[i]);
            proof {
                assert(self.pcode_list@.take(i + 1) =~= self.pcode_list@.take(i as int).push(
                    self.pcode_list@[i as int],
                ));
            }
            i = i + 1;
        }
        proof {
            assert(self.pcode_list@.take(n as int) =~= self.pcode_list@);
        }
        PCodeManager { pcode_list: list }
    }

    /// Overwrite the operand of the instruction at `i`, used to patch a
    /// placeholder jump once its target is known.  An index outside the list
    /// changes nothing.
    pub fn patch_a(&mut self, i: usize, a: i64)
        ensures
            final(self).pcode_list@ == patch_a_spec(old(self).pcode_list@, i, a),
    {
        if i < self.pcode_list.len() {
            let p = self.pcode_list[i];
            self.pcode_list.set(i, Pcode { a, ..p });
        }
    }

    /// Append one instruction.
    pub fn gen(&mut self, f: PcodeType, l: usize, a: i64)
        ensures
            final(self).pcode_list@ == old(self).pcode_list@.push(Pcode { f, l, a }),
    {
        self.pcode_list.push(Pcode { f, l, a });
    }
}

} // verus!
