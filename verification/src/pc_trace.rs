//! The PC trace: the first 200 instructions, a ring of the last 8192, the
//! region transitions, every I/O instruction and the CALL 5 count.
use vstd::prelude::*;
use crate::disasm::{disasm_text, disassemble_8080, port_name, port_name_text};
use crate::emulator::{CoreRegisters, Imsai8080, StepRecord, lemma_records_push, traced_run, devices};
use crate::bus::BusView;
use crate::trace::{IoRecord, dir_text, ran_until_halt_or, three_bytes};
use crate::text::{
    dec_seq, hex2_seq, hex4_lower_seq, hex4_seq, pad_left, pad_right, push_decimal, push_decimal_padded,
    push_hex2, push_hex4, push_hex4_lower, push_padded_right, push_text, zero_pad,
};

verus! {

/// Size of the ring of most recent instructions.
pub const RING_SIZE: usize = 8192;

/// How many instructions are kept from the start.
pub const EARLY_TRACE_SIZE: usize = 200;

/// One traced instruction: its step number, PC, opcode and the three bytes
/// after it, and the registers before it ran.
#[derive(Clone, Copy, Debug)]
pub struct TraceEntry {
    pub count: u64,
    pub pc: u16,
    pub op: u8,
    pub b1: u8,
    pub b2: u8,
    pub b3: u8,
    pub a: u8,
    pub b: u8,
    pub c: u8,
    pub d: u8,
    pub e: u8,
    pub h: u8,
    pub l: u8,
    pub sp: u16,
    pub flags: u8,
}

/// The entry for step number `n`.
pub open spec fn entry_of(n: int, r: StepRecord) -> TraceEntry {
    TraceEntry {
        count: n as u64,
        pc: r.before.pc,
        op: r.op,
        b1: r.b1,
        b2: r.b2,
        b3: r.b3,
        a: r.before.a,
        b: r.before.b,
        c: r.before.c,
        d: r.before.d,
        e: r.before.e,
        h: r.before.h,
        l: r.before.l,
        sp: r.before.sp,
        flags: r.before.flags,
    }
}

/// The entries of the steps, numbered from 1.
pub open spec fn entries(recs: Seq<StepRecord>) -> Seq<TraceEntry> {
    Seq::new(recs.len(), |i: int| entry_of(i + 1, recs[i]))
}

/// The smaller of `a` and `b`.
pub open spec fn min_int(a: int, b: int) -> int {
    if a < b { a } else { b }
}

/// The last `RING_SIZE` entries (all of them when there are fewer), oldest first.
pub open spec fn last_entries(es: Seq<TraceEntry>) -> Seq<TraceEntry> {
    es.subrange(es.len() - min_int(es.len() as int, RING_SIZE as int), es.len() as int)
}

/// Memory region of an address: 0 below 0x0100, 1 below 0xC000, else 2.
pub open spec fn region_of(pc: u16) -> u8 {
    if pc < 0x0100 { 0 } else if pc < 0xC000 { 1 } else { 2 }
}

/// The region of the last step's PC (0 before the first step).
pub open spec fn current_region(recs: Seq<StepRecord>) -> u8 {
    if recs.len() == 0 { 0 } else { region_of(recs.last().before.pc) }
}

/// Region changes: step number, PC, region left and region entered.
pub open spec fn transitions(recs: Seq<StepRecord>) -> Seq<(u64, u16, u8, u8)>
    decreases recs.len(),
{
    if recs.len() == 0 {
        Seq::empty()
    } else {
        let prev = transitions(recs.drop_last());
        let from = current_region(recs.drop_last());
        let to = region_of(recs.last().before.pc);
        if to != from {
            prev.push((recs.len() as u64, recs.last().before.pc, from, to))
        } else {
            prev
        }
    }
}

/// Each OUT (0xD3) or IN (0xDB): step number, port byte (as it was after
/// the step), the accumulator before the step, and whether it was an OUT.
pub open spec fn pc_io(recs: Seq<StepRecord>) -> Seq<IoRecord>
    decreases recs.len(),
{
    if recs.len() == 0 {
        Seq::empty()
    } else {
        let prev = pc_io(recs.drop_last());
        let r = recs.last();
        let n = recs.len() as u64;
        if r.op == 0xD3 {
            prev.push((n, r.post1, r.before.a, true))
        } else if r.op == 0xDB {
            prev.push((n, r.post1, r.before.a, false))
        } else {
            prev
        }
    }
}

/// A CALL (0xCD) whose target, read after it ran, is 0x0005.
pub open spec fn is_call5(r: StepRecord) -> bool {
    r.op == 0xCD && r.post1 == 0x05 && r.post2 == 0x00
}

/// Number of CALL 5 instructions.
pub open spec fn call5_count(recs: Seq<StepRecord>) -> nat
    decreases recs.len(),
{
    if recs.len() == 0 {
        0
    } else {
        call5_count(recs.drop_last()) + (if is_call5(recs.last()) { 1nat } else { 0nat })
    }
}

/// Register C at the last CALL 5 (0 when there was none).
pub open spec fn last_call5_func(recs: Seq<StepRecord>) -> u8
    decreases recs.len(),
{
    if recs.len() == 0 {
        0
    } else if is_call5(recs.last()) {
        recs.last().before.c
    } else {
        last_call5_func(recs.drop_last())
    }
}

/// What the PC trace gathers while it runs.
pub struct PcTraceLog {
    early: Vec<TraceEntry>,
    ring: Vec<TraceEntry>,
    ring_idx: usize,
    ring_full: bool,
    io_log: Vec<IoRecord>,
    call5: u64,
    call5_func: u8,
    last_region: u8,
    transitions: Vec<(u64, u16, u8, u8)>,
}

/// The ring's entries, oldest first.
pub open spec fn ring_in_order(ring: Seq<TraceEntry>, idx: int, full: bool) -> Seq<TraceEntry> {
    if full {
        ring.subrange(idx, ring.len() as int) + ring.subrange(0, idx)
    } else {
        ring
    }
}

/// The ring, its next slot and whether it has wrapped hold the last
/// entries of `es`, oldest first.
pub open spec fn ring_holds(ring: Seq<TraceEntry>, idx: int, full: bool, es: Seq<TraceEntry>) -> bool {
    &&& ring.len() == min_int(es.len() as int, RING_SIZE as int)
    &&& 0 <= idx < RING_SIZE
    &&& (!full ==> idx == 0)
    &&& (full ==> ring.len() == RING_SIZE)
    &&& ring_in_order(ring, idx, full) == last_entries(es)
}

/// Put `entry` in the ring: appended while there is room, else over the
/// oldest entry.
fn push_ring(
    ring: &mut Vec<TraceEntry>,
    idx: &mut usize,
    full: &mut bool,
    entry: TraceEntry,
    Ghost(es): Ghost<Seq<TraceEntry>>,
)
    requires
        ring_holds(old(ring)@, *old(idx) as int, *old(full), es),
    ensures
        ring_holds(final(ring)@, *final(idx) as int, *final(full), es.push(entry)),
{
    let ghost nes = es.push(entry);
    let ghost old_ring = ring@;
    let ghost old_idx = *idx as int;
    let ghost old_full = *full;
    if ring.len() < RING_SIZE {
        ring.push(entry);
        assert(es.len() < RING_SIZE);
        assert(last_entries(es) =~= es);
        assert(last_entries(nes) =~= nes);
        assert(ring_in_order(ring@, *idx as int, *full) =~= nes);
    } else {
        let i = *idx;
        ring.set(i, entry);
        *idx = (i + 1) % RING_SIZE;
        *full = true;
        proof {
            lemma_ring_advance(old_ring, old_idx, old_full, ring@, es, entry);
        }
    }
}

/// Overwriting the oldest slot of a full ring and moving the slot on keeps
/// the ring in order.
proof fn lemma_ring_advance(
    old_ring: Seq<TraceEntry>,
    old_idx: int,
    old_full: bool,
    new_ring: Seq<TraceEntry>,
    es: Seq<TraceEntry>,
    entry: TraceEntry,
)
    requires
        ring_holds(old_ring, old_idx, old_full, es),
        old_ring.len() == RING_SIZE,
        new_ring == old_ring.update(old_idx, entry),
    ensures
        ring_holds(new_ring, (old_idx + 1) % (RING_SIZE as int), true, es.push(entry)),
{
    let n = RING_SIZE as int;
    let nes = es.push(entry);
    let new_idx = (old_idx + 1) % n;
    let lo = es.len() - n;
    assert(es.len() >= n);
    assert(last_entries(es) =~= es.subrange(lo, es.len() as int));
    assert(last_entries(nes) =~= nes.subrange(lo + 1, nes.len() as int));
    let before = ring_in_order(old_ring, old_idx, old_full);
    let after = ring_in_order(new_ring, new_idx, true);
    assert(after.len() == n);
    assert forall|j: int| 0 <= j < n implies #[trigger] after[j] == nes.subrange(lo + 1, nes.len() as int)[j] by {
        if j < n - 1 {
            assert(before[j + 1] == es[lo + j + 1]);
            if old_full {
                if old_idx + 1 + j < n {
                    assert(after[j] == new_ring[old_idx + 1 + j]);
                    assert(before[j + 1] == old_ring[old_idx + 1 + j]);
                } else {
                    assert(after[j] == new_ring[old_idx + 1 + j - n]);
                    assert(before[j + 1] == old_ring[old_idx + 1 + j - n]);
                }
            } else {
                assert(old_idx == 0);
                assert(after[j] == new_ring[1 + j]);
                assert(before[j + 1] == old_ring[1 + j]);
            }
        } else {
            if old_idx + 1 < n {
                assert(after[j] == new_ring[old_idx]);
            } else {
                assert(after[j] == new_ring[old_idx]);
            }
        }
    }
    assert(after =~= last_entries(nes));
}

impl PcTraceLog {
    /// The log holds what the steps `recs` showed.
    pub closed spec fn holds(&self, recs: Seq<StepRecord>) -> bool {
        let es = entries(recs);
        &&& self.early@ == es.subrange(0, min_int(es.len() as int, EARLY_TRACE_SIZE as int))
        &&& ring_holds(self.ring@, self.ring_idx as int, self.ring_full, es)
        &&& self.io_log@ == pc_io(recs)
        &&& self.call5 == call5_count(recs)
        &&& call5_count(recs) <= recs.len()
        &&& self.call5_func == last_call5_func(recs)
        &&& self.last_region == current_region(recs)
        &&& self.transitions@ == transitions(recs)
    }

    fn new() -> (r: Self)
        ensures
            r.holds(Seq::empty()),
    {
        let r = PcTraceLog {
            early: Vec::new(),
            ring: Vec::new(),
            ring_idx: 0,
            ring_full: false,
            io_log: Vec::new(),
            call5: 0,
            call5_func: 0,
            last_region: 0,
            transitions: Vec::new(),
        };
        assert(entries(Seq::<StepRecord>::empty()) =~= Seq::<TraceEntry>::empty());
        assert(r.early@ =~= entries(Seq::<StepRecord>::empty()).subrange(0, 0));
        assert(last_entries(entries(Seq::<StepRecord>::empty())) =~= Seq::<TraceEntry>::empty());
        assert(ring_in_order(r.ring@, 0, false) =~= Seq::<TraceEntry>::empty());
        r
    }

    /// Record step number `n`, the one after `recs`.
    fn record(&mut self, n: u64, rec: &StepRecord, Ghost(recs): Ghost<Seq<StepRecord>>)
        requires
            old(self).holds(recs),
            n == recs.len() + 1,
        ensures
            final(self).holds(recs.push(*rec)),
    {
        let ghost nrecs = recs.push(*rec);
        let ghost es = entries(recs);
        let ghost nes = entries(nrecs);
        assert(nrecs.drop_last() =~= recs);
        assert(nes =~= es.push(entry_of(n as int, *rec)));
        let entry = TraceEntry {
            count: n,
            pc: rec.before.pc,
            op: rec.op,
            b1: rec.b1,
            b2: rec.b2,
            b3: rec.b3,
            a: rec.before.a,
            b: rec.before.b,
            c: rec.before.c,
            d: rec.before.d,
            e: rec.before.e,
            h: rec.before.h,
            l: rec.before.l,
            sp: rec.before.sp,
            flags: rec.before.flags,
        };
        assert(entry == entry_of(n as int, *rec));
        if rec.op == 0xCD && rec.post1 == 0x05 && rec.post2 == 0x00 {
            self.call5 = self.call5 + 1;
            self.call5_func = rec.before.c;
        }
        if rec.op == 0xD3 {
            self.io_log.push((n, rec.post1, rec.before.a, true));
        } else if rec.op == 0xDB {
            self.io_log.push((n, rec.post1, rec.before.a, false));
        }
        let region: u8 = if rec.before.pc < 0x0100 {
            0
        } else if rec.before.pc < 0xC000 {
            1
        } else {
            2
        };
        if region != self.last_region {
            self.transitions.push((n, rec.before.pc, self.last_region, region));
            self.last_region = region;
        }
        if self.early.len() < EARLY_TRACE_SIZE {
            self.early.push(entry);
            assert(self.early@ =~= nes.subrange(0, min_int(nes.len() as int, EARLY_TRACE_SIZE as int)));
        } else {
            assert(self.early@ =~= nes.subrange(0, min_int(nes.len() as int, EARLY_TRACE_SIZE as int)));
        }
        push_ring(&mut self.ring, &mut self.ring_idx, &mut self.ring_full, entry, Ghost(es));
        assert(pc_io(nrecs) == self.io_log@);
        assert(transitions(nrecs) =~= self.transitions@);
    }
}

/// A traced instruction's line: step number, PC, disassembly and registers.
pub open spec fn entry_line(e: TraceEntry) -> Seq<char> {
    pad_left(dec_seq(e.count as nat), 8) + ": PC="@ + hex4_seq(e.pc) + " "@ + pad_right(disasm_text(e.op, e.b1, e.b2), 30)
        + " A="@ + hex2_seq(e.a) + " BC="@ + hex2_seq(e.b) + hex2_seq(e.c) + " DE="@ + hex2_seq(e.d) + hex2_seq(e.e)
        + " HL="@ + hex2_seq(e.h) + hex2_seq(e.l) + " SP="@ + hex4_seq(e.sp) + " F="@ + hex2_seq(e.flags) + "\n"@
}

/// The lines of the entries.
pub open spec fn entry_lines(es: Seq<TraceEntry>) -> Seq<char>
    decreases es.len(),
{
    if es.len() == 0 {
        Seq::empty()
    } else {
        entry_lines(es.drop_last()) + entry_line(es.last())
    }
}

/// Name of a memory region, eight characters wide.
pub open spec fn region_name(r: u8) -> Seq<char> {
    if r == 0 {
        "ZEROPAGE"@
    } else if r == 1 {
        "USER    "@
    } else {
        "HIGHRAM "@
    }
}

/// The lines of the region transitions.
pub open spec fn transition_lines(ts: Seq<(u64, u16, u8, u8)>) -> Seq<char>
    decreases ts.len(),
{
    if ts.len() == 0 {
        Seq::empty()
    } else {
        let t = ts.last();
        transition_lines(ts.drop_last()) + "  "@ + pad_left(dec_seq(t.0 as nat), 8) + ": PC=0x"@ + hex4_seq(t.1) + " "@
            + region_name(t.2) + " -> "@ + region_name(t.3) + "\n"@
    }
}

/// `  ... K NOP instructions ...`
pub open spec fn nop_line(k: nat) -> Seq<char> {
    "  ... "@ + dec_seq(k) + " NOP instructions ...\n"@
}

/// The lines of the entries with runs of NOPs folded into a count, and the
/// length of the run of NOPs at the end still to be printed.
pub open spec fn nop_fold(es: Seq<TraceEntry>) -> (Seq<char>, nat)
    decreases es.len(),
{
    if es.len() == 0 {
        (Seq::empty(), 0)
    } else {
        let (t, k) = nop_fold(es.drop_last());
        if es.last().op == 0x00 {
            (t, k + 1)
        } else {
            (t + (if k > 0 { nop_line(k) } else { Seq::empty() }) + entry_line(es.last()), 0)
        }
    }
}

/// The entries with NOP runs shown as counts.
pub open spec fn non_nop_lines(es: Seq<TraceEntry>) -> Seq<char> {
    let (t, k) = nop_fold(es);
    t + (if k > 0 { nop_line(k) } else { Seq::empty() })
}

/// Line `i` of the PC trace's I/O log: the step, the direction, the port
/// with its name when it has one, and the accumulator after `A=`.
pub open spec fn pc_io_line(i: nat, e: IoRecord) -> Seq<char> {
    let name = port_name_text(e.1);
    pad_left(dec_seq(i), 5) + ": "@ + zero_pad(dec_seq(e.0 as nat), 8) + " "@ + dir_text(e.3) + " 0x"@ + hex2_seq(e.1) + (
    if name.len() == 0 {
        "       "@
    } else {
        " "@ + pad_right(name, 10) + " "@
    }) + "A=0x"@ + hex2_seq(e.2) + "\n"@
}

/// The PC trace's I/O log lines, numbered from 0.
pub open spec fn pc_io_lines(es: Seq<IoRecord>) -> Seq<char>
    decreases es.len(),
{
    if es.len() == 0 {
        Seq::empty()
    } else {
        pc_io_lines(es.drop_last()) + pc_io_line((es.len() - 1) as nat, es.last())
    }
}

/// Append a traced instruction's line.
fn push_entry_line(out: &mut String, e: &TraceEntry)
    ensures
        final(out)@ == old(out)@ + entry_line(*e),
{
    push_decimal_padded(out, e.count, 8, false);
    push_text(out, ": PC=");
    push_hex4(out, e.pc);
    push_text(out, " ");
    let desc = disassemble_8080([e.op, e.b1, e.b2, e.b3]);
    push_padded_right(out, desc.as_str(), 30);
    push_text(out, " A=");
    push_hex2(out, e.a);
    push_text(out, " BC=");
    push_hex2(out, e.b);
    push_hex2(out, e.c);
    push_text(out, " DE=");
    push_hex2(out, e.d);
    push_hex2(out, e.e);
    push_text(out, " HL=");
    push_hex2(out, e.h);
    push_hex2(out, e.l);
    push_text(out, " SP=");
    push_hex4(out, e.sp);
    push_text(out, " F=");
    push_hex2(out, e.flags);
    push_text(out, "\n");
    assert(final(out)@ =~= old(out)@ + entry_line(*e));
}

/// Append the lines of the entries.
fn push_entry_lines(out: &mut String, es: &Vec<TraceEntry>)
    ensures
        final(out)@ == old(out)@ + entry_lines(es@),
{
    let mut i: usize = 0;
    assert(es@.subrange(0, 0) =~= Seq::<TraceEntry>::empty());
    while i < es.len()
        invariant
            i <= es@.len(),
            out@ == old(out)@ + entry_lines(es@.subrange(0, i as int)),
        decreases es@.len() - i,
    {
        push_entry_line(out, &es[i]);
        assert(es@.subrange(0, i + 1).drop_last() =~= es@.subrange(0, i as int));
        assert(out@ =~= old(out)@ + entry_lines(es@.subrange(0, i + 1)));
        i = i + 1;
    }
    assert(es@.subrange(0, es@.len() as int) =~= es@);
}

/// Name of a memory region, eight characters wide.
fn region_str(r: u8) -> (s: &'static str)
    ensures
        s@ == region_name(r),
{
    if r == 0 {
        "ZEROPAGE"
    } else if r == 1 {
        "USER    "
    } else {
        "HIGHRAM "
    }
}

/// Append the lines of the region transitions.
fn push_transition_lines(out: &mut String, ts: &Vec<(u64, u16, u8, u8)>)
    ensures
        final(out)@ == old(out)@ + transition_lines(ts@),
{
    let mut i: usize = 0;
    assert(ts@.subrange(0, 0) =~= Seq::<(u64, u16, u8, u8)>::empty());
    while i < ts.len()
        invariant
            i <= ts@.len(),
            out@ == old(out)@ + transition_lines(ts@.subrange(0, i as int)),
        decreases ts@.len() - i,
    {
        let t = ts[i];
        push_text(out, "  ");
        push_decimal_padded(out, t.0, 8, false);
        push_text(out, ": PC=0x");
        push_hex4(out, t.1);
        push_text(out, " ");
        push_text(out, region_str(t.2));
        push_text(out, " -> ");
        push_text(out, region_str(t.3));
        push_text(out, "\n");
        assert(ts@.subrange(0, i + 1).drop_last() =~= ts@.subrange(0, i as int));
        assert(out@ =~= old(out)@ + transition_lines(ts@.subrange(0, i + 1)));
        i = i + 1;
    }
    assert(ts@.subrange(0, ts@.len() as int) =~= ts@);
}

/// Append `  ... K NOP instructions ...`.
fn push_nop_line(out: &mut String, k: u64)
    ensures
        final(out)@ == old(out)@ + nop_line(k as nat),
{
    push_text(out, "  ... ");
    push_decimal(out, k);
    push_text(out, " NOP instructions ...\n");
    assert(final(out)@ =~= old(out)@ + nop_line(k as nat));
}

/// Slot of the ring's `j`-th oldest entry when the oldest is at `start`.
pub open spec fn ring_slot(start: int, j: int, len: int) -> int {
    if start + j < len { start + j } else { start + j - len }
}

/// Entry `i` of the ring in order.
proof fn lemma_ring_at(ring: Seq<TraceEntry>, idx: int, full: bool, i: int)
    requires
        0 <= i < ring.len(),
        0 <= idx < RING_SIZE,
        !full ==> idx == 0,
        full ==> ring.len() == RING_SIZE,
    ensures
        ring_in_order(ring, idx, full)[i] == ring[ring_slot(if full { idx } else { 0 }, i, ring.len() as int)],
{
}

/// Every entry of the ring in order, by its slot.
proof fn lemma_ring_order(ring: Seq<TraceEntry>, idx: int, full: bool, es: Seq<TraceEntry>)
    requires
        ring_holds(ring, idx, full, es),
    ensures
        ring.len() == last_entries(es).len(),
        forall|j: int|
            0 <= j < ring.len() ==> ring[ring_slot(if full { idx } else { 0 }, j, ring.len() as int)]
                == #[trigger] last_entries(es)[j],
{
    assert forall|j: int| 0 <= j < ring.len() implies ring[ring_slot(if full { idx } else { 0 }, j, ring.len() as int)]
        == #[trigger] last_entries(es)[j] by {
        lemma_ring_at(ring, idx, full, j);
    }
}

/// Append what the NOP folding adds for entry `e` after the entries `pre`.
fn push_fold_step(
    out: &mut String,
    nop_count: u64,
    e: &TraceEntry,
    Ghost(pre): Ghost<Seq<TraceEntry>>,
    Ghost(base): Ghost<Seq<char>>,
) -> (k: u64)
    requires
        nop_fold(pre).1 == nop_count,
        nop_count < u64::MAX,
        old(out)@ == base + nop_fold(pre).0,
    ensures
        nop_fold(pre.push(*e)).1 == k,
        k <= nop_count + 1,
        final(out)@ == base + nop_fold(pre.push(*e)).0,
{
    assert(pre.push(*e).drop_last() =~= pre);
    if e.op == 0x00 {
        nop_count + 1
    } else {
        if nop_count > 0 {
            push_nop_line(out, nop_count);
        }
        push_entry_line(out, e);
        assert(out@ =~= base + nop_fold(pre.push(*e)).0);
        0
    }
}

impl PcTraceLog {
    /// Append the last entries, oldest first, with runs of NOPs as counts.
    fn push_last_lines(&self, out: &mut String, Ghost(es): Ghost<Seq<TraceEntry>>)
        requires
            ring_holds(self.ring@, self.ring_idx as int, self.ring_full, es),
        ensures
            final(out)@ == old(out)@ + non_nop_lines(last_entries(es)),
    {
        let ghost view = last_entries(es);
        let start: usize = if self.ring_full { self.ring_idx } else { 0 };
        let len = self.ring.len();
        proof {
            lemma_ring_order(self.ring@, self.ring_idx as int, self.ring_full, es);
        }
        let mut nop_count: u64 = 0;
        let mut i: usize = 0;
        let ghost base = out@;
        assert(view.subrange(0, 0) =~= Seq::<TraceEntry>::empty());
        while i < len
            invariant
                len == self.ring@.len(),
                len == view.len(),
                len <= RING_SIZE,
                start < len || start == 0,
                i <= len,
                forall|j: int| 0 <= j < len ==> self.ring@[ring_slot(start as int, j, len as int)] == #[trigger] view[j],
                nop_count <= i,
                nop_fold(view.subrange(0, i as int)).1 == nop_count,
                out@ == base + nop_fold(view.subrange(0, i as int)).0,
            decreases len - i,
        {
            let idx = if start + i < len { start + i } else { start + i - len };
            let e = self.ring[idx];
            assert(e == view[i as int]);
            let ghost pre = view.subrange(0, i as int);
            assert(view.subrange(0, i + 1) =~= pre.push(e));
            nop_count = push_fold_step(out, nop_count, &e, Ghost(pre), Ghost(base));
            i = i + 1;
        }
        assert(view.subrange(0, len as int) =~= view);
        assert(out@ =~= base + nop_fold(view).0);
        if nop_count > 0 {
            push_nop_line(out, nop_count);
        }
        assert(final(out)@ =~= old(out)@ + non_nop_lines(view));
    }
}

/// Append line `i` of the PC trace's I/O log.
fn push_pc_io_line(out: &mut String, i: usize, e: IoRecord)
    ensures
        final(out)@ == old(out)@ + pc_io_line(i as nat, e),
{
    let name = port_name(e.1);
    push_decimal_padded(out, i as u64, 5, false);
    push_text(out, ": ");
    push_decimal_padded(out, e.0, 8, true);
    push_text(out, " ");
    if e.3 {
        push_text(out, "OUT");
    } else {
        push_text(out, "IN ");
    }
    push_text(out, " 0x");
    push_hex2(out, e.1);
    if name.unicode_len() == 0 {
        push_text(out, "       ");
    } else {
        push_text(out, " ");
        push_padded_right(out, name, 10);
        push_text(out, " ");
    }
    push_text(out, "A=0x");
    push_hex2(out, e.2);
    push_text(out, "\n");
    assert(final(out)@ =~= old(out)@ + pc_io_line(i as nat, e));
}

/// Append the PC trace's I/O log lines.
fn push_pc_io_lines(out: &mut String, io: &Vec<IoRecord>)
    ensures
        final(out)@ == old(out)@ + pc_io_lines(io@),
{
    let mut i: usize = 0;
    assert(io@.subrange(0, 0) =~= Seq::<IoRecord>::empty());
    while i < io.len()
        invariant
            i <= io@.len(),
            out@ == old(out)@ + pc_io_lines(io@.subrange(0, i as int)),
        decreases io@.len() - i,
    {
        push_pc_io_line(out, i, io[i]);
        assert(io@.subrange(0, i + 1).drop_last() =~= io@.subrange(0, i as int));
        assert(out@ =~= old(out)@ + pc_io_lines(io@.subrange(0, i + 1)));
        i = i + 1;
    }
    assert(io@.subrange(0, io@.len() as int) =~= io@);
}

/// `=== PC TRACE (N instructions, ring=8192) ===`
#[verifier::opaque]
pub open spec fn pc_header(max: u64) -> Seq<char> {
    "=== PC TRACE ("@ + dec_seq(max as nat) + " instructions, ring=8192) ===\n"@
}

/// The first instructions.
#[verifier::opaque]
pub open spec fn first_section(early: Seq<TraceEntry>) -> Seq<char> {
    "\n=== FIRST "@ + dec_seq(early.len()) + " INSTRUCTIONS ===\n"@ + entry_lines(early)
}

/// The region transitions.
#[verifier::opaque]
pub open spec fn transitions_section(ts: Seq<(u64, u16, u8, u8)>) -> Seq<char> {
    "\n=== REGION TRANSITIONS ===\n"@ + transition_lines(ts)
}

/// The last instructions, runs of NOPs folded.
#[verifier::opaque]
pub open spec fn last_section(tail: Seq<TraceEntry>) -> Seq<char> {
    "\n=== LAST "@ + dec_seq(tail.len()) + " INSTRUCTIONS (non-NOP only) ===\n"@ + non_nop_lines(tail)
}

/// The I/O log, or a note that there was none.
#[verifier::opaque]
pub open spec fn io_section(io: Seq<IoRecord>) -> Seq<char> {
    "\n=== I/O LOG (all "@ + dec_seq(io.len()) + " operations) ===\n"@ + pc_io_lines(io) + (if io.len() == 0 {
        "  (none - no IN/OUT instructions executed)\n"@
    } else {
        Seq::empty()
    })
}

/// The CALL 5 count and, when there was one, register C at the last.
#[verifier::opaque]
pub open spec fn call5_section(n5: nat, func: u8) -> Seq<char> {
    "\n=== CALL 5 SUMMARY ===\n"@ + "  Total CALL 5 calls: "@ + dec_seq(n5) + "\n"@ + (if n5 > 0 {
        "  Last function number in C: 0x"@ + hex2_seq(func) + "\n"@
    } else {
        Seq::empty()
    })
}

/// The whole PC trace report for the steps, the final registers and memory.
pub open spec fn pc_trace_text(max: u64, recs: Seq<StepRecord>, last: CoreRegisters, ram: Seq<u8>) -> Seq<char> {
    let es = entries(recs);
    pc_header(max) + first_section(es.subrange(0, min_int(es.len() as int, EARLY_TRACE_SIZE as int)))
        + transitions_section(transitions(recs)) + last_section(last_entries(es)) + io_section(pc_io(recs))
        + call5_section(call5_count(recs), last_call5_func(recs)) + final_state_text(last, ram)
}

impl PcTraceLog {
    /// Append the first instructions.
    fn push_first_section(&self, out: &mut String)
        ensures
            final(out)@ == old(out)@ + first_section(self.early@),
    {
        push_text(out, "\n=== FIRST ");
        push_decimal(out, self.early.len() as u64);
        push_text(out, " INSTRUCTIONS ===\n");
        push_entry_lines(out, &self.early);
        reveal(first_section);
        assert(final(out)@ =~= old(out)@ + first_section(self.early@));
    }

    /// Append the region transitions.
    fn push_transitions_section(&self, out: &mut String)
        ensures
            final(out)@ == old(out)@ + transitions_section(self.transitions@),
    {
        push_text(out, "\n=== REGION TRANSITIONS ===\n");
        push_transition_lines(out, &self.transitions);
        reveal(transitions_section);
        assert(final(out)@ =~= old(out)@ + transitions_section(self.transitions@));
    }

    /// Append the last instructions.
    #[verifier::rlimit(40)]
    fn push_last_section(&self, out: &mut String, Ghost(es): Ghost<Seq<TraceEntry>>)
        requires
            ring_holds(self.ring@, self.ring_idx as int, self.ring_full, es),
        ensures
            final(out)@ == old(out)@ + last_section(last_entries(es)),
    {
        push_text(out, "\n=== LAST ");
        push_decimal(out, self.ring.len() as u64);
        push_text(out, " INSTRUCTIONS (non-NOP only) ===\n");
        self.push_last_lines(out, Ghost(es));
        reveal(last_section);
        assert(final(out)@ =~= old(out)@ + last_section(last_entries(es)));
    }

    /// Append the I/O log.
    fn push_io_section(&self, out: &mut String)
        ensures
            final(out)@ == old(out)@ + io_section(self.io_log@),
    {
        push_text(out, "\n=== I/O LOG (all ");
        push_decimal(out, self.io_log.len() as u64);
        push_text(out, " operations) ===\n");
        push_pc_io_lines(out, &self.io_log);
        if self.io_log.len() == 0 {
            push_text(out, "  (none - no IN/OUT instructions executed)\n");
        }
        reveal(io_section);
        assert(final(out)@ =~= old(out)@ + io_section(self.io_log@));
    }

    /// Append the CALL 5 summary.
    fn push_call5_section(&self, out: &mut String)
        ensures
            final(out)@ == old(out)@ + call5_section(self.call5 as nat, self.call5_func),
    {
        push_text(out, "\n=== CALL 5 SUMMARY ===\n");
        push_text(out, "  Total CALL 5 calls: ");
        push_decimal(out, self.call5);
        push_text(out, "\n");
        if self.call5 > 0 {
            push_text(out, "  Last function number in C: 0x");
            push_hex2(out, self.call5_func);
            push_text(out, "\n");
        }
        reveal(call5_section);
        assert(final(out)@ =~= old(out)@ + call5_section(self.call5 as nat, self.call5_func));
    }

    /// Append the whole report for the steps `recs` gathered here.
    fn push_report(&self, out: &mut String, emu: &Imsai8080, max: u64, last: CoreRegisters, Ghost(recs): Ghost<Seq<StepRecord>>)
        requires
            self.holds(recs),
        ensures
            final(out)@ == old(out)@ + pc_trace_text(max, recs, last, emu.bus@.ram),
    {
        let ghost es = entries(recs);
        let ghost o = out@;
        let ghost h = pc_header(max);
        let ghost f = first_section(es.subrange(0, min_int(es.len() as int, EARLY_TRACE_SIZE as int)));
        let ghost t = transitions_section(transitions(recs));
        let ghost l = last_section(last_entries(es));
        let ghost i = io_section(pc_io(recs));
        let ghost c = call5_section(call5_count(recs), last_call5_func(recs));
        let ghost fs = final_state_text(last, emu.bus@.ram);
        push_text(out, "=== PC TRACE (");
        push_decimal(out, max);
        push_text(out, " instructions, ring=8192) ===\n");
        reveal(pc_header);
        assert(out@ =~= o + h);
        self.push_first_section(out);
        self.push_transitions_section(out);
        self.push_last_section(out, Ghost(es));
        self.push_io_section(out);
        self.push_call5_section(out);
        push_final_state(out, emu, last);
        assert(out@ == o + h + f + t + l + i + c + fs);
        assert(o + h + f + t + l + i + c + fs =~= o + (h + f + t + l + i + c + fs));
        assert(out@ =~= o + pc_trace_text(max, recs, last, emu.bus@.ram));
    }
}

/// The final registers line.
pub open spec fn final_regs_line(last: CoreRegisters) -> Seq<char> {
    "PC=0x"@ + hex4_seq(last.pc) + " SP=0x"@ + hex4_lower_seq(last.sp) + " A=0x"@ + hex2_seq(last.a) + " BC=0x"@
        + hex2_seq(last.b) + hex2_seq(last.c) + " DE=0x"@ + hex2_seq(last.d) + hex2_seq(last.e) + " HL=0x"@ + hex2_seq(
        last.h,
    ) + hex2_seq(last.l) + "\n"@
}

/// The final-state section of the PC trace report.
#[verifier::opaque]
pub open spec fn final_state_text(last: CoreRegisters, ram: Seq<u8>) -> Seq<char> {
    "\n=== FINAL STATE ===\n"@ + final_regs_line(last) + three_bytes(ram, "0x0000: "@, 0) + "   (reset vector)\n"@
        + three_bytes(ram, "0x0005: "@, 5) + "   (CALL 5 vector)\n"@
}

/// Append the final registers line.
fn push_final_regs(out: &mut String, last: CoreRegisters)
    ensures
        final(out)@ == old(out)@ + final_regs_line(last),
{
    push_text(out, "PC=0x");
    push_hex4(out, last.pc);
    push_text(out, " SP=0x");
    push_hex4_lower(out, last.sp);
    push_text(out, " A=0x");
    push_hex2(out, last.a);
    push_text(out, " BC=0x");
    push_hex2(out, last.b);
    push_hex2(out, last.c);
    push_text(out, " DE=0x");
    push_hex2(out, last.d);
    push_hex2(out, last.e);
    push_text(out, " HL=0x");
    push_hex2(out, last.h);
    push_hex2(out, last.l);
    push_text(out, "\n");
    assert(final(out)@ =~= old(out)@ + final_regs_line(last));
}

/// Append the final-state section.
fn push_final_state(out: &mut String, emu: &Imsai8080, last: CoreRegisters)
    ensures
        final(out)@ == old(out)@ + final_state_text(last, emu.bus@.ram),
{
    push_text(out, "\n=== FINAL STATE ===\n");
    push_final_regs(out, last);
    crate::trace::push_three_bytes(out, emu, "0x0000: ", 0);
    push_text(out, "   (reset vector)\n");
    crate::trace::push_three_bytes(out, emu, "0x0005: ", 5);
    push_text(out, "   (CALL 5 vector)\n");
    reveal(final_state_text);
    assert(final(out)@ =~= old(out)@ + final_state_text(last, emu.bus@.ram));
}

/// PC trace: run up to `max` instructions (until the CPU halts), keeping the
/// first 200 and a ring of the last 8192, the region transitions, every I/O
/// instruction and the CALL 5 count, then report them and the final state.
pub fn run_pc_trace(emu: &mut Imsai8080, max: u64) -> (r: String)
    requires
        old(emu).wf(),
    ensures
        final(emu).wf(),
        exists|recs: Seq<StepRecord>, mems: Seq<Seq<u8>>, buses: Seq<BusView>|
            #[trigger] traced_run(recs, mems, buses, old(emu).cpu, old(emu).bus@.ram, old(emu).bus@, final(emu).cpu, final(emu).bus@.ram, final(emu).bus@)
                && ran_until_halt_or(recs, max) && r@ == pc_trace_text(
                max,
                recs,
                recs.last().after,
                final(emu).bus@.ram,
            ),
{
    let mut log = PcTraceLog::new();
    let ghost mut recs: Seq<StepRecord> = Seq::empty();
    let mut count: u64 = 0;
    let mut last: StepRecord;
    emu.begin_batch();
    let ghost cpu0 = emu.cpu;
    let ghost ram0 = emu.core_memory();
    let ghost mut mems: Seq<Seq<u8>> = seq![emu.core_memory()];
    let ghost bus0 = emu.bus@;
    let ghost mut buses: Seq<BusView> = seq![devices(emu.bus@)];
    assert(recs =~= Seq::<StepRecord>::empty());
    loop
        invariant_except_break
            count < max || (max == 0 && count == 0),
            forall|i: int| 0 <= i < recs.len() ==> !(#[trigger] recs[i]).after.halt,
        invariant
            emu.wf(),
            traced_run(recs, mems, buses, cpu0, ram0, bus0, emu.cpu, emu.core_memory(), emu.bus@),
            count == recs.len(),
            log.holds(recs),
        ensures
            1 <= recs.len(),
            traced_run(recs, mems, buses, cpu0, ram0, bus0, emu.cpu, emu.core_memory(), emu.bus@),
            count == recs.len(),
            log.holds(recs),
            recs.len() <= max || (max == 0 && recs.len() == 1),
            forall|i: int| 0 <= i < recs.len() - 1 ==> !(#[trigger] recs[i]).after.halt,
            recs.len() < max ==> recs.last().after.halt,
            last == recs.last(),
        decreases (if max == 0 { 1 } else { max as int }) - count,
    {
        let rec = emu.traced_step();
        proof {
            lemma_records_push(recs, mems, buses, cpu0, rec, emu.core_memory(), devices(emu.bus@));
            mems = mems.push(emu.core_memory());
            buses = buses.push(devices(emu.bus@));
        }
        count += 1;
        log.record(count, &rec, Ghost(recs));
        proof {
            recs = recs.push(rec);
        }
        last = rec;
        if rec.after.halt || count >= max {
            break;
        }
    }
    emu.end_batch();
    assert(traced_run(recs, mems, buses, cpu0, ram0, bus0, emu.cpu, emu.bus@.ram, emu.bus@));
    let mut out = String::new();
    log.push_report(&mut out, emu, max, last.after, Ghost(recs));
    assert(out@ =~= pc_trace_text(max, recs, recs.last().after, emu.bus@.ram));
    out
}

} // verus!
