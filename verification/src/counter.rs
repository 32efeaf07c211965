//! The call-id issuer: a monotonically increasing program counter that is
//! handed to whoever needs to draw identifiers from it.

use vstd::prelude::*;

verus! {

/// A program counter. Each draw returns the current value and advances it.
#[derive(Debug, PartialEq, Eq)]
pub struct ProgramCounter {
    next: u64,
}

impl ProgramCounter {
    /// The value that the next draw returns.
    pub closed spec fn value(&self) -> nat {
        self.next as nat
    }

    /// A counter that starts at zero.
    pub fn new() -> (pc: ProgramCounter)
        ensures
            pc.value() == 0,
    {
        ProgramCounter { next: 0 }
    }

    /// The value that the next draw returns.
    pub fn peek(&self) -> (v: u64)
        ensures
            v == self.value(),
    {
        self.next
    }
}

/// The successor of a counter value; the counter wraps after `u64::MAX`.
pub open spec fn successor(v: nat) -> nat {
    if v == u64::MAX as nat {
        0
    } else {
        v + 1
    }
}

/// Returns the counter's value before the draw and advances the counter by one.
pub fn get_pc(pc: &mut ProgramCounter) -> (id: u64)
    ensures
        id == old(pc).value(),
        final(pc).value() == successor(old(pc).value()),
{
    let id: u64 = pc.next;
    pc.next = id.wrapping_add(1);
    id
}

/// The counter value `steps` draws after `v`.
pub open spec fn advanced(v: nat, steps: nat) -> nat {
    (v + steps) % 0x1_0000_0000_0000_0000
}

/// Draws one identifier per aggregate of a batch: `n` draws in a row.
pub fn draw_call_ids(pc: &mut ProgramCounter, n: usize) -> (ids: Vec<u64>)
    ensures
        ids.len() == n,
        forall|i: int| 0 <= i < n ==> #[trigger] ids[i] == advanced(old(pc).value(), i as nat),
        final(pc).value() == advanced(old(pc).value(), n as nat),
{
    let ghost start = pc.value();
    let mut ids: Vec<u64> = Vec::new();
    let mut i: usize = 0;
    while i < n
        invariant
            i <= n,
            ids.len() == i,
            start < 0x1_0000_0000_0000_0000,
            pc.value() == advanced(start, i as nat),
            forall|k: int| 0 <= k < i ==> #[trigger] ids[k] == advanced(start, k as nat),
        decreases n - i,
    {
        let id = get_pc(pc);
        ids.push(id);
        i += 1;
    }
    ids
}

/// Identifiers are unique and increase as long as the counter does not wrap:
/// of two draws, the later one yields the larger identifier.
pub proof fn law_ids_increase(start: nat, earlier: nat, later: nat)
    requires
        earlier < later,
        start + later < 0x1_0000_0000_0000_0000,
    ensures
        advanced(start, earlier) < advanced(start, later),
        advanced(start, earlier) == start + earlier,
{
}

/// Drawing in two rounds yields the identifiers of one long round: the
/// counter carries on where the batch before left it.
pub proof fn law_ids_continue(start: nat, first: nat, second: nat)
    ensures
        advanced(advanced(start, first), second) == advanced(start, first + second),
{
}

} // verus!
