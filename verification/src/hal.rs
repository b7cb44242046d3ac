//! Capability traits the engine is written against: volatile register access
//! and a monotonic tick counter.
//!
//! The engine never touches hardware directly; it is generic over these two
//! traits, so every proof about it holds for any implementation.  A register
//! read returns an unconstrained value: the engine is verified for every
//! possible sequence of readings.  Writes are recorded in a ghost log, which
//! is what the engine's ordering contracts (clear-before-command, and the
//! like) are stated over.

use vstd::prelude::*;

verus! {

/// One recorded register write: the byte offset written, the value, and
/// whether the access was byte-wide (the FIFO data window) or 32 bits wide.
pub struct RegWrite {
    pub byte: bool,
    pub off: usize,
    pub val: u32,
}

/// Volatile access to the controller's register block.
///
/// `read32`/`read8` return whatever the hardware presents; nothing is assumed
/// of the value.  `write32`/`write8` append to the ghost write log, and reads
/// leave it unchanged: the log is the trace the engine's ordering contracts
/// speak of.  Implementations must perform each call exactly once, in program
/// order, against the device's register block (or a software-backed fake).
pub trait RegisterAccess {
    /// Ghost log of every write performed so far, oldest first.  The
    /// default is only a placeholder: what the engine proves about a log
    /// holds for any implementation, through the method contracts alone.
    open spec fn writes(&self) -> Seq<RegWrite> {
        Seq::empty()
    }

    /// Ghost log of every byte read from the FIFO data window, oldest
    /// first.  A placeholder default, as for `writes`.
    open spec fn byte_reads(&self) -> Seq<u8> {
        Seq::empty()
    }

    /// Ghost log of every byte pushed into the FIFO data window, oldest
    /// first.  A placeholder default, as for `writes`.
    open spec fn byte_writes(&self) -> Seq<u8> {
        Seq::empty()
    }

    /// Read a 32-bit register at byte offset `off`.
    fn read32(&mut self, off: usize) -> (v: u32)
        ensures
            final(self).writes() == old(self).writes(),
            final(self).byte_reads() == old(self).byte_reads(),
            final(self).byte_writes() == old(self).byte_writes(),
    ;

    /// Write a 32-bit register at byte offset `off`.
    fn write32(&mut self, off: usize, v: u32)
        ensures
            final(self).writes() == old(self).writes().push((RegWrite { byte: false, off: off, val: v })),
            final(self).byte_reads() == old(self).byte_reads(),
            final(self).byte_writes() == old(self).byte_writes(),
    ;

    /// Read one byte at byte offset `off` (the FIFO data window).
    fn read8(&mut self, off: usize) -> (v: u8)
        ensures
            final(self).writes() == old(self).writes(),
            final(self).byte_reads() == old(self).byte_reads().push(v),
            final(self).byte_writes() == old(self).byte_writes(),
    ;

    /// Write one byte at byte offset `off` (the FIFO data window).
    fn write8(&mut self, off: usize, v: u8)
        ensures
            final(self).writes() == old(self).writes().push((RegWrite { byte: true, off: off, val: v as u32 })),
            final(self).byte_reads() == old(self).byte_reads(),
            final(self).byte_writes() == old(self).byte_writes().push(v),
    ;
}

/// A monotonic tick counter (one tick per microsecond at construction time).
///
/// Implementations must return strictly increasing readings until the counter
/// ends at `u64::MAX`: every busy-wait in the engine terminates on that
/// promise.  A reading is never smaller than the one before it.
pub trait Clock {
    /// The most recent reading handed out.  The default is only a
    /// placeholder: what the engine proves about a clock holds for any
    /// implementation, through the method contracts alone.
    open spec fn last(&self) -> u64 {
        0
    }

    /// Read the counter.
    fn now(&mut self) -> (t: u64)
        ensures
            t == final(self).last(),
            final(self).last() >= old(self).last(),
            old(self).last() < u64::MAX ==> final(self).last() > old(self).last(),
    ;
}

/// The byte sequence `s` repeated `n` times, end to end.
pub open spec fn repeated(s: Seq<u8>, n: nat) -> Seq<u8>
    decreases n,
{
    if n == 0 {
        Seq::empty()
    } else {
        repeated(s, (n - 1) as nat) + s
    }
}

/// The log entry of a 32-bit write of `val` at offset `off`.
pub open spec fn w32(off: usize, val: u32) -> RegWrite {
    RegWrite { byte: false, off: off, val: val }
}

/// The log entry that starts a command with the encoded word `val`.
pub open spec fn command_entry(val: u32) -> RegWrite {
    w32(crate::reg::REG_CMD, val)
}

/// The log entry that sets the argument register to `val`.
pub open spec fn argument_entry(val: u32) -> RegWrite {
    w32(crate::reg::REG_CMDARG, val)
}

/// True of a write log entry that starts a command: a 32-bit write to the
/// command register.
pub open spec fn is_command_write(w: RegWrite) -> bool {
    !w.byte && w.off == crate::reg::REG_CMD
}

/// True of a write log entry that clears every pending interrupt-status bit.
pub open spec fn is_clear_all_write(w: RegWrite) -> bool {
    !w.byte && w.off == crate::reg::REG_RINTSTS && w.val == crate::reg::INT_ALL
}

/// The log `n` carries the log `o` unchanged as its start: writes are only
/// ever appended.
pub open spec fn log_extends(o: Seq<RegWrite>, n: Seq<RegWrite>) -> bool {
    o.len() <= n.len() && forall|i: int| 0 <= i < o.len() ==> o[i] == #[trigger] n[i]
}

/// Every command-register write in `s` at position `from` or later is
/// preceded, at or after `from`, by a sweep that cleared all pending
/// interrupt-status bits: stale flags of an earlier transaction cannot be
/// misread against a command started after `from`.
pub open spec fn clears_precede_commands_from(s: Seq<RegWrite>, from: int) -> bool {
    forall|j: int|
        from <= j < s.len() && is_command_write(#[trigger] s[j]) ==> exists|i: int|
            from <= i < j && is_clear_all_write(#[trigger] s[i])
}

/// The log `s` holds the write `w` somewhere at or after position `from`.
pub open spec fn log_contains_from(s: Seq<RegWrite>, from: int, w: RegWrite) -> bool {
    exists|i: int| from <= i < s.len() && #[trigger] s[i] == w
}

/// A write found at or after `m` in the log `s1` is still found at or after
/// the earlier position `n` in any log extending `s1`.
pub proof fn lemma_contains_persists(s1: Seq<RegWrite>, s2: Seq<RegWrite>, m: int, n: int, w: RegWrite)
    requires
        log_contains_from(s1, m, w),
        log_extends(s1, s2),
        0 <= n <= m,
    ensures
        log_contains_from(s2, n, w),
{
    assert(exists|i: int| m <= i < s1.len() && #[trigger] s1[i] == w);
    let i = choose|i: int| m <= i < s1.len() && #[trigger] s1[i] == w;
    assert(s2[i] == s1[i]);
    assert(n <= i < s2.len() && s2[i] == w);
}

/// `ws` occurs in `s` as a subsequence, in order: its head stands at some
/// position `i` with `from <= i < upto`, and the rest occurs after `i`.
pub open spec fn occurs_in_order_between(
    s: Seq<RegWrite>,
    from: int,
    upto: int,
    ws: Seq<RegWrite>,
) -> bool
    decreases ws.len(),
{
    ws.len() == 0 || (exists|i: int|
        from <= i < upto && i < s.len() && #[trigger] s[i] == ws[0] && occurs_in_order_between(
            s,
            i + 1,
            upto,
            ws.skip(1),
        ))
}

/// `ws` occurs in `s` as an ordered subsequence at or after `from`.
pub open spec fn occurs_in_order_from(s: Seq<RegWrite>, from: int, ws: Seq<RegWrite>) -> bool {
    occurs_in_order_between(s, from, s.len() as int, ws)
}

/// An ordered occurrence whose witnesses lie below `upto` survives any
/// extension of the log past `upto`.
pub proof fn lemma_occurs_persists(
    s1: Seq<RegWrite>,
    s2: Seq<RegWrite>,
    from: int,
    upto: int,
    ws: Seq<RegWrite>,
)
    requires
        occurs_in_order_between(s1, from, upto, ws),
        log_extends(s1, s2),
        0 <= from,
        upto <= s1.len(),
    ensures
        occurs_in_order_between(s2, from, upto, ws),
    decreases ws.len(),
{
    if ws.len() != 0 {
        let i = choose|i: int|
            from <= i < upto && i < s1.len() && #[trigger] s1[i] == ws[0]
                && occurs_in_order_between(s1, i + 1, upto, ws.skip(1));
        assert(s2[i] == s1[i]);
        lemma_occurs_persists(s1, s2, i + 1, upto, ws.skip(1));
        assert(from <= i < upto && i < s2.len() && s2[i] == ws[0] && occurs_in_order_between(
            s2,
            i + 1,
            upto,
            ws.skip(1),
        ));
    }
}

/// Appending one more entry, found at a position `j` past every earlier
/// witness, extends an ordered occurrence.
pub proof fn lemma_occurs_append(
    s: Seq<RegWrite>,
    from: int,
    upto: int,
    j: int,
    ws: Seq<RegWrite>,
    w: RegWrite,
)
    requires
        occurs_in_order_between(s, from, upto, ws),
        0 <= from <= upto <= j,
        j < s.len(),
        s[j] == w,
    ensures
        occurs_in_order_between(s, from, j + 1, ws.push(w)),
    decreases ws.len(),
{
    if ws.len() == 0 {
        assert(ws.push(w)[0] == w);
        assert(ws.push(w).skip(1) =~= Seq::<RegWrite>::empty());
        assert(from <= j < j + 1 && j < s.len() && s[j] == ws.push(w)[0]
            && occurs_in_order_between(s, j + 1, j + 1, ws.push(w).skip(1)));
    } else {
        let i = choose|i: int|
            from <= i < upto && i < s.len() && #[trigger] s[i] == ws[0]
                && occurs_in_order_between(s, i + 1, upto, ws.skip(1));
        lemma_occurs_append(s, i + 1, upto, j, ws.skip(1), w);
        assert(ws.skip(1).push(w) =~= ws.push(w).skip(1));
        assert(ws.push(w)[0] == ws[0]);
        assert(from <= i < j + 1 && i < s.len() && s[i] == ws.push(w)[0]
            && occurs_in_order_between(s, i + 1, j + 1, ws.push(w).skip(1)));
    }
}

/// The `from` bound of an ordered occurrence can be moved down.
pub proof fn lemma_occurs_weaken_from(
    s: Seq<RegWrite>,
    f0: int,
    f1: int,
    upto: int,
    ws: Seq<RegWrite>,
)
    requires
        occurs_in_order_between(s, f1, upto, ws),
        f0 <= f1,
    ensures
        occurs_in_order_between(s, f0, upto, ws),
{
    if ws.len() != 0 {
        let i = choose|i: int|
            f1 <= i < upto && i < s.len() && #[trigger] s[i] == ws[0]
                && occurs_in_order_between(s, i + 1, upto, ws.skip(1));
        assert(f0 <= i < upto && i < s.len() && s[i] == ws[0] && occurs_in_order_between(
            s,
            i + 1,
            upto,
            ws.skip(1),
        ));
    }
}

/// Two ordered occurrences over adjoining stretches concatenate.
pub proof fn lemma_occurs_concat(
    s: Seq<RegWrite>,
    from: int,
    mid: int,
    upto: int,
    ws1: Seq<RegWrite>,
    ws2: Seq<RegWrite>,
)
    requires
        occurs_in_order_between(s, from, mid, ws1),
        occurs_in_order_between(s, mid, upto, ws2),
        from <= mid <= upto,
    ensures
        occurs_in_order_between(s, from, upto, ws1 + ws2),
    decreases ws1.len(),
{
    if ws1.len() == 0 {
        assert(ws1 + ws2 =~= ws2);
        lemma_occurs_weaken_from(s, from, mid, upto, ws2);
    } else {
        let i = choose|i: int|
            from <= i < mid && i < s.len() && #[trigger] s[i] == ws1[0]
                && occurs_in_order_between(s, i + 1, mid, ws1.skip(1));
        lemma_occurs_concat(s, i + 1, mid, upto, ws1.skip(1), ws2);
        assert(ws1.skip(1) + ws2 =~= (ws1 + ws2).skip(1));
        assert((ws1 + ws2)[0] == ws1[0]);
        assert(from <= i < upto && i < s.len() && s[i] == (ws1 + ws2)[0]
            && occurs_in_order_between(s, i + 1, upto, (ws1 + ws2).skip(1)));
    }
}

/// An ordered occurrence gives plain containment of every entry.
pub proof fn lemma_occurs_implies_contains(
    s: Seq<RegWrite>,
    from: int,
    upto: int,
    ws: Seq<RegWrite>,
)
    requires
        occurs_in_order_between(s, from, upto, ws),
        0 <= from,
    ensures
        contains_all_from(s, from, ws),
    decreases ws.len(),
{
    if ws.len() != 0 {
        let i = choose|i: int|
            from <= i < upto && i < s.len() && #[trigger] s[i] == ws[0]
                && occurs_in_order_between(s, i + 1, upto, ws.skip(1));
        lemma_occurs_implies_contains(s, i + 1, upto, ws.skip(1));
        assert forall|j: int| 0 <= j < ws.len() implies log_contains_from(
            s,
            from,
            #[trigger] ws[j],
        ) by {
            if j == 0 {
                assert(from <= i < s.len() && s[i] == ws[0]);
            } else {
                assert(ws.skip(1)[j - 1] == ws[j]);
                lemma_contains_persists(s, s, i + 1, from, ws[j]);
            }
        }
    }
}

/// Every entry of `ws` stands in `s` somewhere at or after `from`.
pub open spec fn contains_all_from(s: Seq<RegWrite>, from: int, ws: Seq<RegWrite>) -> bool {
    forall|j: int| 0 <= j < ws.len() ==> log_contains_from(s, from, #[trigger] ws[j])
}

/// A log whose entry at `from` is a clear-all sweep satisfies
/// clear-before-command from `from` on: the sweep itself is not a command
/// write, so it precedes every later command write in the stretch.
pub proof fn lemma_clear_all_covers(s: Seq<RegWrite>, from: int)
    requires
        0 <= from < s.len(),
        is_clear_all_write(s[from]),
    ensures
        clears_precede_commands_from(s, from),
{
    assert forall|j: int| from <= j < s.len() && is_command_write(#[trigger] s[j]) implies exists|
        i: int,
    | from <= i < j && is_clear_all_write(#[trigger] s[i]) by {
        assert(j != from);
        assert(from <= from < j && is_clear_all_write(s[from]));
    }
}

/// Clear-before-command composes across two stretches of the same log: if it
/// holds of the writes between `from` and the end of `o`, and of the writes
/// `n` appended after `o`, it holds of the whole stretch from `from`.
pub proof fn lemma_clears_precede_chain(o: Seq<RegWrite>, n: Seq<RegWrite>, from: int)
    requires
        0 <= from <= o.len(),
        log_extends(o, n),
        clears_precede_commands_from(o, from),
        clears_precede_commands_from(n, o.len() as int),
    ensures
        clears_precede_commands_from(n, from),
{
    assert forall|j: int| from <= j < n.len() && is_command_write(#[trigger] n[j]) implies exists|
        i: int,
    | from <= i < j && is_clear_all_write(#[trigger] n[i]) by {
        if j < o.len() {
            assert(o[j] == n[j]);
            let i = choose|i: int| from <= i < j && is_clear_all_write(#[trigger] o[i]);
            assert(o[i] == n[i]);
            assert(from <= i < j && is_clear_all_write(n[i]));
        } else {
            let i = choose|i: int|
                o.len() <= i < j && is_clear_all_write(#[trigger] n[i]);
            assert(from <= i < j && is_clear_all_write(n[i]));
        }
    }
}

} // verus!
