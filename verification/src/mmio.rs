//! Register writes, as values.
//!
//! Drivers decide here which registers to write; the embedding program performs
//! the volatile accesses, in order.

use vstd::prelude::*;

verus! {

/// Write `value` to the 32-bit register at `addr`.
#[derive(Debug, Clone, Copy, PartialEq, Eq, Structural)]
pub struct RegWrite {
    pub addr: u32,
    pub value: u32,
}

/// At most this many writes make up one driver operation.
pub const MAX_WRITES: usize = 3;

/// A short list of writes, to be performed in order.
#[derive(Debug, Clone, Copy)]
pub struct WriteList {
    pub items: [RegWrite; MAX_WRITES],
    /// How many of `items` count.
    pub len: usize,
}

impl View for WriteList {
    type V = Seq<RegWrite>;

    open spec fn view(&self) -> Seq<RegWrite> {
        self.items@.take(self.len as int)
    }
}

impl WriteList {
    pub open spec fn wf(self) -> bool {
        self.len <= MAX_WRITES
    }

    /// No writes at all.
    pub fn none() -> (w: Self)
        ensures
            w.wf(),
            w@ == Seq::<RegWrite>::empty(),
    {
        let idle = RegWrite { addr: 0, value: 0 };
        let w = WriteList { items: [idle; MAX_WRITES], len: 0 };
        assert(w@ =~= Seq::<RegWrite>::empty());
        w
    }

    /// Append a write.
    pub fn push(&mut self, addr: u32, value: u32)
        requires
            old(self).wf(),
            old(self)@.len() < MAX_WRITES,
        ensures
            final(self).wf(),
            final(self)@ == old(self)@.push(RegWrite { addr, value }),
    {
        self.items[self.len] = RegWrite { addr, value };
        self.len += 1;
        assert(self@ =~= old(self)@.push(RegWrite { addr, value }));
    }
}

/// **A list holds its first `len` items, in order.**
pub proof fn law_list_seen_as_it_is(w: WriteList)
    requires
        w.len <= 3,
    ensures
        w.wf(),
        w@.len() == w.len,
        forall|i: int| 0 <= i < w.len ==> #[trigger] w@[i] == w.items@[i],
{
}

} // verus!
