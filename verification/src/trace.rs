//! Trace and diagnostic runs: each runs the CPU for a bounded number of
//! instructions and returns the report text that the command line prints.
use vstd::prelude::*;
use crate::emulator::{CoreRegisters, Imsai8080, StepRecord, lemma_machine_run_append, lemma_records_push, machine_run, traced_run, devices};
use crate::bus::BusView;
use vstd::string::StringSliceAdditionalSpecFns;
use crate::cards::front_panel::RunState;
pub use crate::pc_trace::run_pc_trace;
use crate::program::{is_white, is_white_char};
use crate::text::{
    dec_seq, hex2_seq, hex4_seq, pad_left, pad_right, push_decimal, push_decimal_padded, push_hex2,
    push_hex4, push_text, zero_pad,
};

verus! {

/// The text has a character that is not white space (`trim()` leaves
/// something).
pub open spec fn has_visible(d: Seq<char>) -> bool {
    exists|i: int| 0 <= i < d.len() && !is_white(#[trigger] d[i])
}

/// The console screen as the reports show it.
pub open spec fn display_report(d: Seq<char>) -> Seq<char> {
    if has_visible(d) {
        "\nDisplay:\n"@ + d + "\n"@
    } else {
        "\n(no display output)\n"@
    }
}

/// Bytes of a memory dump: each as two hex digits and a space, a new
/// indented line every 16 bytes.
pub open spec fn dump_body(ram: Seq<u8>, start: u16, n: int) -> Seq<char>
    decreases n,
{
    if n <= 0 {
        Seq::empty()
    } else {
        let i = n - 1;
        dump_body(ram, start, i) + (if i > 0 && i % 16 == 0 { "\n        "@ } else { Seq::empty() })
            + hex2_seq(ram[(start + i) % 65536]) + " "@
    }
}

/// `0xSSSS: label = bytes`, then a line break.
pub open spec fn dump_text(ram: Seq<u8>, start: u16, len: int, label: Seq<char>) -> Seq<char> {
    "0x"@ + hex4_seq(start) + ": "@ + label + " = "@ + dump_body(ram, start, len) + "\n"@
}

/// The steps ran from the first until the CPU halted or `max` steps were
/// taken (one step when `max` is 0).
pub open spec fn ran_until_halt_or(recs: Seq<StepRecord>, max: u64) -> bool {
    &&& 1 <= recs.len()
    &&& recs.len() <= max || (max == 0 && recs.len() == 1)
    &&& forall|i: int| 0 <= i < recs.len() - 1 ==> !(#[trigger] recs[i]).after.halt
    &&& recs.len() < max ==> recs.last().after.halt
}

/// `\nStopped at PC=0xPPPP after N instructions\n`.
pub open spec fn stopped_line(pc: u16, n: nat) -> Seq<char> {
    "\nStopped at PC=0x"@ + hex4_seq(pc) + " after "@ + dec_seq(n) + " instructions\n"@
}

/// Whether `d` has a visible character.
fn display_has_visible(d: &String) -> (r: bool)
    ensures
        r == has_visible(d@),
{
    let s = d.as_str();
    let n = s.unicode_len();
    let mut i: usize = 0;
    while i < n
        invariant
            n == d@.len(),
            i <= n,
            s@ == d@,
            forall|j: int| 0 <= j < i ==> is_white(#[trigger] d@[j]),
        decreases n - i,
    {
        let c = s.get_char(i);
        if !is_white_char(c) {
            return true;
        }
        i = i + 1;
    }
    false
}

/// Append the console screen as the reports show it.
fn push_display_report(out: &mut String, emu: &Imsai8080)
    requires
        emu.wf(),
    ensures
        final(out)@ == old(out)@ + display_report(crate::io::video::screen_text(emu.bus@.serial.video.rows)),
{
    let display = emu.bus.display_text();
    if display_has_visible(&display) {
        push_text(out, "\nDisplay:\n");
        push_text(out, display.as_str());
        push_text(out, "\n");
    } else {
        push_text(out, "\n(no display output)\n");
    }
}

/// Append the dump body of `len` bytes from `start`.
fn push_dump_body(out: &mut String, emu: &Imsai8080, start: u16, len: usize)
    ensures
        final(out)@ == old(out)@ + dump_body(emu.bus@.ram, start, len as int),
{
    let mut i: usize = 0;
    while i < len
        invariant
            i <= len,
            out@ == old(out)@ + dump_body(emu.bus@.ram, start, i as int),
        decreases len - i,
    {
        if i > 0 && i % 16 == 0 {
            push_text(out, "\n        ");
        }
        let addr = start.wrapping_add((i % 65536) as u16);
        assert(addr as int == (start + i) % 65536) by {
            assert((start as int + (i % 65536)) % 65536 == (start as int + i) % 65536) by (nonlinear_arith);
        }
        push_hex2(out, emu.bus.mem_read(addr));
        push_text(out, " ");
        proof {
            let ghost nxt = dump_body(emu.bus@.ram, start, i + 1);
            assert(nxt == dump_body(emu.bus@.ram, start, i as int) + (if i > 0 && i % 16 == 0 {
                "\n        "@
            } else {
                Seq::empty()
            }) + hex2_seq(emu.bus@.ram[(start + i) % 65536]) + " "@);
            if i > 0 && i % 16 == 0 {
                assert(out@ =~= old(out)@ + nxt);
            } else {
                assert(out@ =~= old(out)@ + nxt);
            }
        }
        i = i + 1;
    }
}

/// Hex dump of memory, as printed on standard output: a blank line first.
pub fn dump_memory(emu: &Imsai8080, start: u16, len: usize, label: &str) -> (r: String)
    ensures
        r@ == "\n"@ + dump_text(emu.bus@.ram, start, len as int, label@),
{
    let mut out = String::new();
    push_text(&mut out, "\n0x");
    push_hex4(&mut out, start);
    push_text(&mut out, ": ");
    push_text(&mut out, label);
    push_text(&mut out, " = ");
    push_dump_body(&mut out, emu, start, len);
    push_text(&mut out, "\n");
    proof {
        reveal_strlit("\n0x");
        reveal_strlit("\n");
        reveal_strlit("0x");
    }
    assert(out@ =~= "\n"@ + dump_text(emu.bus@.ram, start, len as int, label@));
    out
}

/// Hex dump of memory, as printed on standard error.
pub fn dump_memory_eprint(emu: &Imsai8080, start: u16, len: usize, label: &str) -> (r: String)
    ensures
        r@ == dump_text(emu.bus@.ram, start, len as int, label@),
{
    let mut out = String::new();
    push_text(&mut out, "0x");
    push_hex4(&mut out, start);
    push_text(&mut out, ": ");
    push_text(&mut out, label);
    push_text(&mut out, " = ");
    push_dump_body(&mut out, emu, start, len);
    push_text(&mut out, "\n");
    assert(out@ =~= dump_text(emu.bus@.ram, start, len as int, label@));
    out
}

/// What the step trace shows of an instruction, decoded from the bytes
/// before it ran.
pub open spec fn step_desc(r: StepRecord) -> Seq<char> {
    if r.op == 0xC3 {
        "JMP 0x"@ + hex2_seq(r.b2) + hex2_seq(r.b1)
    } else if r.op == 0xCD {
        "CALL 0x"@ + hex2_seq(r.b2) + hex2_seq(r.b1)
    } else if r.op == 0xC9 {
        "RET"@
    } else if r.op == 0xD3 {
        "OUT 0x"@ + hex2_seq(r.b1) + ",A=0x"@ + hex2_seq(r.before.a)
    } else if r.op == 0xDB {
        "IN A,0x"@ + hex2_seq(r.b1)
    } else if r.op == 0x31 {
        "LXI SP,0x"@ + hex2_seq(r.b2) + hex2_seq(r.b1)
    } else if r.op == 0x00 {
        "NOP"@
    } else {
        "0x"@ + hex2_seq(r.op)
    }
}

/// Line `count` of the step trace.
pub open spec fn step_line(count: nat, r: StepRecord) -> Seq<char> {
    pad_left(dec_seq(count), 6) + ": PC=0x"@ + hex4_seq(r.before.pc) + " "@ + pad_right(step_desc(r), 20)
        + " A=0x"@ + hex2_seq(r.before.a) + " C=0x"@ + hex2_seq(r.before.c) + " SP=0x"@ + hex4_seq(
        r.before.sp,
    ) + "\n"@
}

/// The step trace's lines for the steps, numbered from 0.
pub open spec fn step_lines(recs: Seq<StepRecord>) -> Seq<char>
    decreases recs.len(),
{
    if recs.len() == 0 {
        Seq::empty()
    } else {
        step_lines(recs.drop_last()) + step_line((recs.len() - 1) as nat, recs.last())
    }
}

/// The whole step trace report.
pub open spec fn step_trace_text(max: u64, recs: Seq<StepRecord>) -> Seq<char> {
    "=== STEP TRACE ("@ + dec_seq(max as nat) + " instructions) ===\n"@ + step_lines(recs) + stopped_line(
        recs.last().after.pc,
        recs.len(),
    )
}

/// The description of an instruction in the step trace.
fn step_description(r: &StepRecord) -> (s: String)
    ensures
        s@ == step_desc(*r),
{
    let mut s = String::new();
    if r.op == 0xC3 {
        push_text(&mut s, "JMP 0x");
        push_hex2(&mut s, r.b2);
        push_hex2(&mut s, r.b1);
    } else if r.op == 0xCD {
        push_text(&mut s, "CALL 0x");
        push_hex2(&mut s, r.b2);
        push_hex2(&mut s, r.b1);
    } else if r.op == 0xC9 {
        push_text(&mut s, "RET");
    } else if r.op == 0xD3 {
        push_text(&mut s, "OUT 0x");
        push_hex2(&mut s, r.b1);
        push_text(&mut s, ",A=0x");
        push_hex2(&mut s, r.before.a);
    } else if r.op == 0xDB {
        push_text(&mut s, "IN A,0x");
        push_hex2(&mut s, r.b1);
    } else if r.op == 0x31 {
        push_text(&mut s, "LXI SP,0x");
        push_hex2(&mut s, r.b2);
        push_hex2(&mut s, r.b1);
    } else if r.op == 0x00 {
        push_text(&mut s, "NOP");
    } else {
        push_text(&mut s, "0x");
        push_hex2(&mut s, r.op);
    }
    assert(s@ =~= step_desc(*r));
    s
}

/// Append line `count` of the step trace.
fn push_step_line(out: &mut String, count: u64, r: &StepRecord)
    ensures
        final(out)@ == old(out)@ + step_line(count as nat, *r),
{
    push_decimal_padded(out, count, 6, false);
    push_text(out, ": PC=0x");
    push_hex4(out, r.before.pc);
    push_text(out, " ");
    let desc = step_description(r);
    push_padded_right_string(out, &desc, 20);
    push_text(out, " A=0x");
    push_hex2(out, r.before.a);
    push_text(out, " C=0x");
    push_hex2(out, r.before.c);
    push_text(out, " SP=0x");
    push_hex4(out, r.before.sp);
    push_text(out, "\n");
    assert(final(out)@ =~= old(out)@ + step_line(count as nat, *r));
}

/// Append `t` left-aligned in a field of `w` characters.
fn push_padded_right_string(out: &mut String, t: &String, w: usize)
    ensures
        final(out)@ == old(out)@ + pad_right(t@, w as int),
{
    crate::text::push_padded_right(out, t.as_str(), w);
}

/// Append `\nStopped at PC=0xPPPP after N instructions\n`.
fn push_stopped_line(out: &mut String, pc: u16, n: u64)
    ensures
        final(out)@ == old(out)@ + stopped_line(pc, n as nat),
{
    push_text(out, "\nStopped at PC=0x");
    push_hex4(out, pc);
    push_text(out, " after ");
    push_decimal(out, n);
    push_text(out, " instructions\n");
    assert(final(out)@ =~= old(out)@ + stopped_line(pc, n as nat));
}

/// Step trace: every instruction of the first `max` steps (until the CPU
/// halts), decoded from memory before it runs, with A, C and SP.
pub fn run_step_trace(emu: &mut Imsai8080, max: u64) -> (r: String)
    requires
        old(emu).wf(),
    ensures
        final(emu).wf(),
        exists|recs: Seq<StepRecord>, mems: Seq<Seq<u8>>, buses: Seq<BusView>|
            #[trigger] traced_run(recs, mems, buses, old(emu).cpu, old(emu).bus@.ram, old(emu).bus@, final(emu).cpu, final(emu).bus@.ram, final(emu).bus@) && ran_until_halt_or(recs, max)
                && r@ == step_trace_text(max, recs),
{
    let mut out = String::new();
    push_text(&mut out, "=== STEP TRACE (");
    push_decimal(&mut out, max);
    push_text(&mut out, " instructions) ===\n");
    let ghost head = "=== STEP TRACE ("@ + dec_seq(max as nat) + " instructions) ===\n"@;
    assert(out@ =~= head + step_lines(Seq::<StepRecord>::empty()));
    let ghost mut recs: Seq<StepRecord> = Seq::empty();
    let mut count: u64 = 0;
    let mut last: StepRecord;
    emu.begin_batch();
    let ghost cpu0 = emu.cpu;
    let ghost ram0 = emu.core_memory();
    let ghost mut mems: Seq<Seq<u8>> = seq![emu.core_memory()];
    let ghost bus0 = emu.bus@;
    let ghost mut buses: Seq<BusView> = seq![devices(emu.bus@)];
    assert(recs =~= Seq::<StepRecord>::empty());
    loop
        invariant_except_break
            count < max || (max == 0 && count == 0),
            forall|i: int| 0 <= i < recs.len() ==> !(#[trigger] recs[i]).after.halt,
        invariant
            emu.wf(),
            traced_run(recs, mems, buses, cpu0, ram0, bus0, emu.cpu, emu.core_memory(), emu.bus@),
            count == recs.len(),
            out@ == head + step_lines(recs),
        ensures
            1 <= recs.len(),
            traced_run(recs, mems, buses, cpu0, ram0, bus0, emu.cpu, emu.core_memory(), emu.bus@),
            count == recs.len(),
            out@ == head + step_lines(recs),
            recs.len() <= max || (max == 0 && recs.len() == 1),
            forall|i: int| 0 <= i < recs.len() - 1 ==> !(#[trigger] recs[i]).after.halt,
            recs.len() < max ==> recs.last().after.halt,
            last == recs.last(),
        decreases (if max == 0 { 1 } else { max as int }) - count,
    {
        let rec = emu.traced_step();
        proof {
            lemma_records_push(recs, mems, buses, cpu0, rec, emu.core_memory(), devices(emu.bus@));
            mems = mems.push(emu.core_memory());
            buses = buses.push(devices(emu.bus@));
        }
        push_step_line(&mut out, count, &rec);
        proof {
            let prev = recs;
            recs = recs.push(rec);
            assert(recs.drop_last() =~= prev);
        }
        count += 1;
        last = rec;
        if rec.after.halt || count >= max {
            break;
        }
    }
    emu.end_batch();
    assert(traced_run(recs, mems, buses, cpu0, ram0, bus0, emu.cpu, emu.bus@.ram, emu.bus@));
    push_stopped_line(&mut out, last.after.pc, count);
    assert(out@ =~= step_trace_text(max, recs));
    out
}

/// The full trace report: the start line, then where it stopped and the
/// console screen.
pub open spec fn trace_text(max: u64, start_pc: u16, recs: Seq<StepRecord>, display: Seq<char>) -> Seq<char> {
    "Tracing "@ + dec_seq(max as nat) + " instructions from PC=0x"@ + hex4_seq(start_pc) + "...\n"@
        + "Stopped at PC=0x"@ + hex4_seq(recs.last().after.pc) + " after "@ + dec_seq(recs.len())
        + " instructions\n"@ + "\nDisplay:\n"@ + display + "\n"@
}

/// Full trace: run up to `max` instructions (until the CPU halts) with no
/// per-instruction output, then report where it stopped and the screen.
pub fn run_trace(emu: &mut Imsai8080, max: u64) -> (r: String)
    requires
        old(emu).wf(),
    ensures
        final(emu).wf(),
        exists|recs: Seq<StepRecord>, mems: Seq<Seq<u8>>, buses: Seq<BusView>|
            #[trigger] traced_run(recs, mems, buses, old(emu).cpu, old(emu).bus@.ram, old(emu).bus@, final(emu).cpu, final(emu).bus@.ram, final(emu).bus@) && ran_until_halt_or(recs, max) && r@ == trace_text(
                max,
                old(emu).cpu.pc,
                recs,
                crate::io::video::screen_text(final(emu).bus@.serial.video.rows),
            ),
{
    let start_pc = emu.control().pc;
    let mut out = String::new();
    push_text(&mut out, "Tracing ");
    push_decimal(&mut out, max);
    push_text(&mut out, " instructions from PC=0x");
    push_hex4(&mut out, start_pc);
    push_text(&mut out, "...\n");
    let ghost head = out@;
    let ghost mut recs: Seq<StepRecord> = Seq::empty();
    let mut count: u64 = 0;
    let mut last: StepRecord;
    emu.begin_batch();
    let ghost cpu0 = emu.cpu;
    let ghost ram0 = emu.core_memory();
    let ghost mut mems: Seq<Seq<u8>> = seq![emu.core_memory()];
    let ghost bus0 = emu.bus@;
    let ghost mut buses: Seq<BusView> = seq![devices(emu.bus@)];
    assert(recs =~= Seq::<StepRecord>::empty());
    loop
        invariant_except_break
            count < max || (max == 0 && count == 0),
            forall|i: int| 0 <= i < recs.len() ==> !(#[trigger] recs[i]).after.halt,
        invariant
            emu.wf(),
            traced_run(recs, mems, buses, cpu0, ram0, bus0, emu.cpu, emu.core_memory(), emu.bus@),
            count == recs.len(),
            out@ == head,
        ensures
            1 <= recs.len(),
            traced_run(recs, mems, buses, cpu0, ram0, bus0, emu.cpu, emu.core_memory(), emu.bus@),
            count == recs.len(),
            recs.len() <= max || (max == 0 && recs.len() == 1),
            forall|i: int| 0 <= i < recs.len() - 1 ==> !(#[trigger] recs[i]).after.halt,
            recs.len() < max ==> recs.last().after.halt,
            last == recs.last(),
        decreases (if max == 0 { 1 } else { max as int }) - count,
    {
        let rec = emu.traced_step();
        proof {
            lemma_records_push(recs, mems, buses, cpu0, rec, emu.core_memory(), devices(emu.bus@));
            mems = mems.push(emu.core_memory());
            buses = buses.push(devices(emu.bus@));
        }
        proof {
            recs = recs.push(rec);
        }
        count += 1;
        last = rec;
        if rec.after.halt || count >= max {
            break;
        }
    }
    emu.end_batch();
    assert(traced_run(recs, mems, buses, cpu0, ram0, bus0, emu.cpu, emu.bus@.ram, emu.bus@));
    push_text(&mut out, "Stopped at PC=0x");
    push_hex4(&mut out, last.after.pc);
    push_text(&mut out, " after ");
    push_decimal(&mut out, count);
    push_text(&mut out, " instructions\n");
    let display = emu.bus.display_text();
    push_text(&mut out, "\nDisplay:\n");
    push_text(&mut out, display.as_str());
    push_text(&mut out, "\n");
    assert(out@ =~= trace_text(max, start_pc, recs, display@));
    out
}

/// An I/O instruction in a trace: its step number, the port, the
/// accumulator, and whether it was an OUT.
pub type IoRecord = (u64, u8, u8, bool);

/// The diagnostic trace's I/O log: each OUT (0xD3) or IN (0xDB) with the
/// port byte and the accumulator as they were after it ran.
pub open spec fn diag_io(recs: Seq<StepRecord>) -> Seq<IoRecord>
    decreases recs.len(),
{
    if recs.len() == 0 {
        Seq::empty()
    } else {
        let prev = diag_io(recs.drop_last());
        let r = recs.last();
        let n = recs.len() as u64;
        if r.op == 0xD3 {
            prev.push((n, r.post1, r.after.a, true))
        } else if r.op == 0xDB {
            prev.push((n, r.post1, r.after.a, false))
        } else {
            prev
        }
    }
}

/// The diagnostic trace's PC snapshots: the PC after every 10000th step.
pub open spec fn diag_snapshots(recs: Seq<StepRecord>) -> Seq<(u64, u16)>
    decreases recs.len(),
{
    if recs.len() == 0 {
        Seq::empty()
    } else {
        let prev = diag_snapshots(recs.drop_last());
        if recs.len() % 10000 == 0 {
            prev.push((recs.len() as u64, recs.last().after.pc))
        } else {
            prev
        }
    }
}

/// `OUT` or `IN ` (three characters).
pub open spec fn dir_text(is_out: bool) -> Seq<char> {
    if is_out { "OUT"@ } else { "IN "@ }
}

/// Line `i` of the diagnostic I/O log.
pub open spec fn diag_io_line(i: nat, e: IoRecord) -> Seq<char> {
    pad_left(dec_seq(i), 5) + ": "@ + zero_pad(dec_seq(e.0 as nat), 8) + " "@ + dir_text(e.3) + " 0x"@ + hex2_seq(e.1)
        + " A=0x"@ + hex2_seq(e.2) + "\n"@
}

/// The diagnostic I/O log lines, numbered from 0.
pub open spec fn diag_io_lines(es: Seq<IoRecord>) -> Seq<char>
    decreases es.len(),
{
    if es.len() == 0 {
        Seq::empty()
    } else {
        diag_io_lines(es.drop_last()) + diag_io_line((es.len() - 1) as nat, es.last())
    }
}

/// The PC snapshot lines.
pub open spec fn snapshot_lines(ss: Seq<(u64, u16)>) -> Seq<char>
    decreases ss.len(),
{
    if ss.len() == 0 {
        Seq::empty()
    } else {
        snapshot_lines(ss.drop_last()) + "  "@ + zero_pad(dec_seq(ss.last().0 as nat), 8) + ": PC=0x"@ + hex4_seq(
            ss.last().1,
        ) + "\n"@
    }
}

/// `label` followed by the three bytes from `addr`.
pub open spec fn three_bytes(ram: Seq<u8>, label: Seq<char>, addr: int) -> Seq<char> {
    label + hex2_seq(ram[addr]) + " "@ + hex2_seq(ram[addr + 1]) + " "@ + hex2_seq(ram[addr + 2])
}

/// The diagnostic report from its I/O log, snapshots and final registers.
pub open spec fn diag_report_text(
    max: u64,
    io: Seq<IoRecord>,
    snaps: Seq<(u64, u16)>,
    last: crate::emulator::CoreRegisters,
    ram: Seq<u8>,
    display: Seq<char>,
) -> Seq<char> {
    "=== DIAGNOSTIC TRACE ("@ + dec_seq(max as nat) + " instructions) ===\n"@ + "\n=== I/O LOG (first 50) ===\n"@
        + diag_io_lines(io.subrange(0, if io.len() < 50 { io.len() as int } else { 50 })) + (if io.len() > 50 {
        "  ... "@ + dec_seq(io.len()) + " total I/O operations\n"@
    } else {
        Seq::empty()
    }) + "\n=== PC SNAPSHOTS ===\n"@ + snapshot_lines(snaps) + "\n=== FINAL STATE ===\n"@ + "PC=0x"@ + hex4_seq(
        last.pc,
    ) + " SP=0x"@ + hex4_seq(last.sp) + " A=0x"@ + hex2_seq(last.a) + "\n"@ + three_bytes(ram, "0x0000: "@, 0)
        + "\n"@ + three_bytes(ram, "0x0005: "@, 5) + "\n"@ + display_report(display)
}

/// The whole diagnostic report.
pub open spec fn diag_text(max: u64, recs: Seq<StepRecord>, ram: Seq<u8>, display: Seq<char>) -> Seq<char> {
    diag_report_text(max, diag_io(recs), diag_snapshots(recs), recs.last().after, ram, display)
}

/// Append `label` and the three bytes from `addr`.
pub(crate) fn push_three_bytes(out: &mut String, emu: &Imsai8080, label: &str, addr: u16)
    requires
        addr < 0xFFFE,
    ensures
        final(out)@ == old(out)@ + three_bytes(emu.bus@.ram, label@, addr as int),
{
    push_text(out, label);
    push_hex2(out, emu.bus.mem_read(addr));
    push_text(out, " ");
    push_hex2(out, emu.bus.mem_read(addr + 1));
    push_text(out, " ");
    push_hex2(out, emu.bus.mem_read(addr + 2));
    assert(final(out)@ =~= old(out)@ + three_bytes(emu.bus@.ram, label@, addr as int));
}

/// Append the diagnostic I/O log lines for the first `n` entries.
fn push_diag_io_lines(out: &mut String, io: &Vec<IoRecord>, n: usize)
    requires
        n <= io@.len(),
    ensures
        final(out)@ == old(out)@ + diag_io_lines(io@.subrange(0, n as int)),
{
    let mut i: usize = 0;
    assert(io@.subrange(0, 0) =~= Seq::<IoRecord>::empty());
    while i < n
        invariant
            i <= n,
            n <= io@.len(),
            out@ == old(out)@ + diag_io_lines(io@.subrange(0, i as int)),
        decreases n - i,
    {
        let e = io[i];
        push_decimal_padded(out, i as u64, 5, false);
        push_text(out, ": ");
        push_decimal_padded(out, e.0, 8, true);
        push_text(out, " ");
        if e.3 {
            push_text(out, "OUT");
        } else {
            push_text(out, "IN ");
        }
        push_text(out, " 0x");
        push_hex2(out, e.1);
        push_text(out, " A=0x");
        push_hex2(out, e.2);
        push_text(out, "\n");
        assert(io@.subrange(0, i + 1).drop_last() =~= io@.subrange(0, i as int));
        assert(out@ =~= old(out)@ + diag_io_lines(io@.subrange(0, i + 1)));
        i = i + 1;
    }
}

/// Append the PC snapshot lines.
fn push_snapshot_lines(out: &mut String, ss: &Vec<(u64, u16)>)
    ensures
        final(out)@ == old(out)@ + snapshot_lines(ss@),
{
    let mut i: usize = 0;
    assert(ss@.subrange(0, 0) =~= Seq::<(u64, u16)>::empty());
    while i < ss.len()
        invariant
            i <= ss@.len(),
            out@ == old(out)@ + snapshot_lines(ss@.subrange(0, i as int)),
        decreases ss@.len() - i,
    {
        let e = ss[i];
        push_text(out, "  ");
        push_decimal_padded(out, e.0, 8, true);
        push_text(out, ": PC=0x");
        push_hex4(out, e.1);
        push_text(out, "\n");
        assert(ss@.subrange(0, i + 1).drop_last() =~= ss@.subrange(0, i as int));
        assert(out@ =~= old(out)@ + snapshot_lines(ss@.subrange(0, i + 1)));
        i = i + 1;
    }
    assert(ss@.subrange(0, ss@.len() as int) =~= ss@);
}

/// The diagnostic report for the logs gathered and the final registers.
#[verifier::rlimit(60)]
fn diag_report(
    emu: &Imsai8080,
    max: u64,
    io_log: &Vec<IoRecord>,
    snapshots: &Vec<(u64, u16)>,
    last: crate::emulator::CoreRegisters,
) -> (r: String)
    requires
        emu.wf(),
    ensures
        r@ == diag_report_text(
            max,
            io_log@,
            snapshots@,
            last,
            emu.bus@.ram,
            crate::io::video::screen_text(emu.bus@.serial.video.rows),
        ),
{
    let mut out = String::new();
    push_text(&mut out, "=== DIAGNOSTIC TRACE (");
    push_decimal(&mut out, max);
    push_text(&mut out, " instructions) ===\n");
    push_text(&mut out, "\n=== I/O LOG (first 50) ===\n");
    let shown: usize = if io_log.len() < 50 { io_log.len() } else { 50 };
    push_diag_io_lines(&mut out, io_log, shown);
    if io_log.len() > 50 {
        push_text(&mut out, "  ... ");
        push_decimal(&mut out, io_log.len() as u64);
        push_text(&mut out, " total I/O operations\n");
    }
    push_text(&mut out, "\n=== PC SNAPSHOTS ===\n");
    push_snapshot_lines(&mut out, snapshots);
    push_text(&mut out, "\n=== FINAL STATE ===\n");
    push_text(&mut out, "PC=0x");
    push_hex4(&mut out, last.pc);
    push_text(&mut out, " SP=0x");
    push_hex4(&mut out, last.sp);
    push_text(&mut out, " A=0x");
    push_hex2(&mut out, last.a);
    push_text(&mut out, "\n");
    push_three_bytes(&mut out, emu, "0x0000: ", 0);
    push_text(&mut out, "\n");
    push_three_bytes(&mut out, emu, "0x0005: ", 5);
    push_text(&mut out, "\n");
    push_display_report(&mut out, emu);
    assert(out@ =~= diag_report_text(
        max,
        io_log@,
        snapshots@,
        last,
        emu.bus@.ram,
        crate::io::video::screen_text(emu.bus@.serial.video.rows),
    ));
    out
}

/// Diagnostic mode: run up to `max` instructions (until the CPU halts),
/// logging I/O instructions and a PC snapshot every 10000 steps, then
/// report the first 50 I/O operations, the snapshots, the final state and
/// the screen.
pub fn run_diag(emu: &mut Imsai8080, max: u64) -> (r: String)
    requires
        old(emu).wf(),
    ensures
        final(emu).wf(),
        exists|recs: Seq<StepRecord>, mems: Seq<Seq<u8>>, buses: Seq<BusView>|
            #[trigger] traced_run(recs, mems, buses, old(emu).cpu, old(emu).bus@.ram, old(emu).bus@, final(emu).cpu, final(emu).bus@.ram, final(emu).bus@) && ran_until_halt_or(recs, max) && r@ == diag_text(
                max,
                recs,
                final(emu).bus@.ram,
                crate::io::video::screen_text(final(emu).bus@.serial.video.rows),
            ),
{
    let mut io_log: Vec<IoRecord> = Vec::new();
    let mut snapshots: Vec<(u64, u16)> = Vec::new();
    let ghost mut recs: Seq<StepRecord> = Seq::empty();
    let mut count: u64 = 0;
    let mut last: StepRecord;
    emu.begin_batch();
    let ghost cpu0 = emu.cpu;
    let ghost ram0 = emu.core_memory();
    let ghost mut mems: Seq<Seq<u8>> = seq![emu.core_memory()];
    let ghost bus0 = emu.bus@;
    let ghost mut buses: Seq<BusView> = seq![devices(emu.bus@)];
    assert(recs =~= Seq::<StepRecord>::empty());
    loop
        invariant_except_break
            count < max || (max == 0 && count == 0),
            forall|i: int| 0 <= i < recs.len() ==> !(#[trigger] recs[i]).after.halt,
        invariant
            emu.wf(),
            traced_run(recs, mems, buses, cpu0, ram0, bus0, emu.cpu, emu.core_memory(), emu.bus@),
            count == recs.len(),
            io_log@ == diag_io(recs),
            snapshots@ == diag_snapshots(recs),
        ensures
            1 <= recs.len(),
            traced_run(recs, mems, buses, cpu0, ram0, bus0, emu.cpu, emu.core_memory(), emu.bus@),
            count == recs.len(),
            io_log@ == diag_io(recs),
            snapshots@ == diag_snapshots(recs),
            recs.len() <= max || (max == 0 && recs.len() == 1),
            forall|i: int| 0 <= i < recs.len() - 1 ==> !(#[trigger] recs[i]).after.halt,
            recs.len() < max ==> recs.last().after.halt,
            last == recs.last(),
        decreases (if max == 0 { 1 } else { max as int }) - count,
    {
        let rec = emu.traced_step();
        proof {
            lemma_records_push(recs, mems, buses, cpu0, rec, emu.core_memory(), devices(emu.bus@));
            mems = mems.push(emu.core_memory());
            buses = buses.push(devices(emu.bus@));
        }
        count += 1;
        if rec.op == 0xD3 {
            io_log.push((count, rec.post1, rec.after.a, true));
        } else if rec.op == 0xDB {
            io_log.push((count, rec.post1, rec.after.a, false));
        }
        if count % 10000 == 0 {
            snapshots.push((count, rec.after.pc));
        }
        proof {
            let prev = recs;
            recs = recs.push(rec);
            assert(recs.drop_last() =~= prev);
        }
        last = rec;
        if rec.after.halt || count >= max {
            break;
        }
    }
    emu.end_batch();
    assert(traced_run(recs, mems, buses, cpu0, ram0, bus0, emu.cpu, emu.bus@.ram, emu.bus@));
    let r = diag_report(emu, max, &io_log, &snapshots, last.after);
    assert(r@ == diag_text(
        max,
        recs,
        emu.bus@.ram,
        crate::io::video::screen_text(emu.bus@.serial.video.rows),
    ));
    r
}

/// A Tarbell disk port (0x48-0x4B or 0xF8-0xFD) as the verbose trace counts them.
pub open spec fn is_disk_port(port: u8) -> bool {
    (0x48 <= port <= 0x4B) || (0xF8 <= port <= 0xFD)
}

/// What the verbose trace prints for step number `n`: console characters
/// written to port 0, and every 500th step's disk port traffic.
pub open spec fn verbose_piece(n: nat, r: StepRecord) -> Seq<char> {
    let port = r.post1;
    let a = r.after.a;
    if r.op == 0xD3 {
        if port == 0x00 && ((a >= 32 && a < 127) || a == 0x0D || a == 0x0A) {
            seq![a as char]
        } else if is_disk_port(port) && n % 500 == 0 {
            zero_pad(dec_seq(n), 6) + ": OUT 0x"@ + hex2_seq(port) + ",A=0x"@ + hex2_seq(a) + "\n"@
        } else {
            Seq::empty()
        }
    } else if r.op == 0xDB {
        if port == 0x01 || port == 0xF9 {
            Seq::empty()
        } else if is_disk_port(port) && n % 500 == 0 {
            zero_pad(dec_seq(n), 6) + ": IN  0x"@ + hex2_seq(port) + "\n"@
        } else {
            Seq::empty()
        }
    } else {
        Seq::empty()
    }
}

/// The verbose trace output for the steps, numbered from 1.
pub open spec fn verbose_pieces(recs: Seq<StepRecord>) -> Seq<char>
    decreases recs.len(),
{
    if recs.len() == 0 {
        Seq::empty()
    } else {
        verbose_pieces(recs.drop_last()) + verbose_piece(recs.len(), recs.last())
    }
}

/// Append what the verbose trace prints for step number `n`.
fn push_verbose_piece(out: &mut String, n: u64, r: &StepRecord)
    ensures
        final(out)@ == old(out)@ + verbose_piece(n as nat, *r),
{
    let port = r.post1;
    let a = r.after.a;
    let disk = (0x48 <= port && port <= 0x4B) || (0xF8 <= port && port <= 0xFD);
    if r.op == 0xD3 {
        if port == 0x00 && ((a >= 32 && a < 127) || a == 0x0D || a == 0x0A) {
            out.push(a as char);
            assert(final(out)@ =~= old(out)@ + seq![a as char]);
        } else if disk && n % 500 == 0 {
            push_decimal_padded(out, n, 6, true);
            push_text(out, ": OUT 0x");
            push_hex2(out, port);
            push_text(out, ",A=0x");
            push_hex2(out, a);
            push_text(out, "\n");
            assert(final(out)@ =~= old(out)@ + verbose_piece(n as nat, *r));
        } else {
            assert(final(out)@ =~= old(out)@ + verbose_piece(n as nat, *r));
        }
    } else if r.op == 0xDB {
        if port == 0x01 || port == 0xF9 {
            assert(final(out)@ =~= old(out)@ + verbose_piece(n as nat, *r));
        } else if disk && n % 500 == 0 {
            push_decimal_padded(out, n, 6, true);
            push_text(out, ": IN  0x");
            push_hex2(out, port);
            push_text(out, "\n");
            assert(final(out)@ =~= old(out)@ + verbose_piece(n as nat, *r));
        } else {
            assert(final(out)@ =~= old(out)@ + verbose_piece(n as nat, *r));
        }
    } else {
        assert(final(out)@ =~= old(out)@ + verbose_piece(n as nat, *r));
    }
}

/// Verbose trace: run up to `max` instructions (until the CPU halts),
/// echoing console output and sampling disk I/O every 500 steps, then say
/// where it stopped.
pub fn run_verbose_trace(emu: &mut Imsai8080, max: u64) -> (r: String)
    requires
        old(emu).wf(),
    ensures
        final(emu).wf(),
        exists|recs: Seq<StepRecord>, mems: Seq<Seq<u8>>, buses: Seq<BusView>|
            #[trigger] traced_run(recs, mems, buses, old(emu).cpu, old(emu).bus@.ram, old(emu).bus@, final(emu).cpu, final(emu).bus@.ram, final(emu).bus@) && ran_until_halt_or(recs, max) && r@ == verbose_pieces(recs) + stopped_line(
                recs.last().after.pc,
                recs.len(),
            ),
{
    let mut out = String::new();
    let ghost mut recs: Seq<StepRecord> = Seq::empty();
    let mut count: u64 = 0;
    let mut last: StepRecord;
    emu.begin_batch();
    let ghost cpu0 = emu.cpu;
    let ghost ram0 = emu.core_memory();
    let ghost mut mems: Seq<Seq<u8>> = seq![emu.core_memory()];
    let ghost bus0 = emu.bus@;
    let ghost mut buses: Seq<BusView> = seq![devices(emu.bus@)];
    assert(recs =~= Seq::<StepRecord>::empty());
    loop
        invariant_except_break
            count < max || (max == 0 && count == 0),
            forall|i: int| 0 <= i < recs.len() ==> !(#[trigger] recs[i]).after.halt,
        invariant
            emu.wf(),
            traced_run(recs, mems, buses, cpu0, ram0, bus0, emu.cpu, emu.core_memory(), emu.bus@),
            count == recs.len(),
            out@ == verbose_pieces(recs),
        ensures
            1 <= recs.len(),
            traced_run(recs, mems, buses, cpu0, ram0, bus0, emu.cpu, emu.core_memory(), emu.bus@),
            count == recs.len(),
            out@ == verbose_pieces(recs),
            recs.len() <= max || (max == 0 && recs.len() == 1),
            forall|i: int| 0 <= i < recs.len() - 1 ==> !(#[trigger] recs[i]).after.halt,
            recs.len() < max ==> recs.last().after.halt,
            last == recs.last(),
        decreases (if max == 0 { 1 } else { max as int }) - count,
    {
        let rec = emu.traced_step();
        proof {
            lemma_records_push(recs, mems, buses, cpu0, rec, emu.core_memory(), devices(emu.bus@));
            mems = mems.push(emu.core_memory());
            buses = buses.push(devices(emu.bus@));
        }
        count += 1;
        push_verbose_piece(&mut out, count, &rec);
        proof {
            let prev = recs;
            recs = recs.push(rec);
            assert(recs.drop_last() =~= prev);
        }
        last = rec;
        if rec.after.halt || count >= max {
            break;
        }
    }
    emu.end_batch();
    assert(traced_run(recs, mems, buses, cpu0, ram0, bus0, emu.cpu, emu.bus@.ram, emu.bus@));
    push_stopped_line(&mut out, last.after.pc, count);
    out
}

/// The batch run's report: header, where it stopped, the screen and three
/// memory dumps.
pub open spec fn interactive_text(max: u64, pc: u16, n: nat, ram: Seq<u8>, display: Seq<char>) -> Seq<char> {
    "IMSAI 8080 ("@ + dec_seq(max as nat) + " instructions)\n"@ + stopped_line(pc, n) + display_report(display)
        + "\n=== MEMORY DUMP ===\n"@ + "\n"@ + dump_text(ram, 0x0000, 8, "Vectors"@) + "\n"@ + dump_text(
        ram,
        0x0100,
        16,
        "TPA start"@,
    ) + "\n"@ + dump_text(ram, 0xFF00, 32, "High RAM"@)
}

/// Non-interactive batch: put the panel in RUN, run up to `max`
/// instructions in batches of 1000 (until the panel stops or the CPU
/// halts), then report the screen and memory dumps. The CPU and memory
/// afterwards are the instructions run on from the state the RUN switch
/// left (the one the call started from when the panel was running).
pub fn run_interactive(emu: &mut Imsai8080, max: u64) -> (r: String)
    requires
        old(emu).wf(),
    ensures
        final(emu).wf(),
        exists|n: nat, regs: Seq<CoreRegisters>, mems: Seq<Seq<u8>>, buses: Seq<BusView>|
            #![trigger machine_run(regs, mems, buses), interactive_text(max, final(emu).cpu.pc, n, final(emu).bus@.ram, crate::io::video::screen_text(final(emu).bus@.serial.video.rows))]
            n <= max && (n == max || final(emu).cpu.halt || final(emu).panel@.run_state == RunState::Stopped)
                && r@ == interactive_text(
                max,
                final(emu).cpu.pc,
                n,
                final(emu).bus@.ram,
                crate::io::video::screen_text(final(emu).bus@.serial.video.rows),
            ) && machine_run(regs, mems, buses) && regs.len() == n + 1 && regs.last() == final(emu).cpu
                && mems.last() == final(emu).bus@.ram && buses.last() == devices(final(emu).bus@)
                && regs[0] == (CoreRegisters { pc: regs[0].pc, halt: regs[0].halt, ..old(emu).cpu })
                && (old(emu).panel@.run_state != RunState::Stopped ==> regs[0] == old(emu).cpu
                && mems[0] == old(emu).bus@.ram && buses[0] == devices(old(emu).bus@)),
{
    if emu.panel.is_stopped() {
        emu.panel.press_switch(crate::cards::front_panel::PanelSwitch::RunStop);
        emu.process_panel();
    }
    let ghost cpu0 = emu.cpu;
    let ghost ram_start = emu.bus@.ram;
    let ghost mut regs: Seq<CoreRegisters> = seq![emu.cpu];
    let ghost mut mems: Seq<Seq<u8>> = seq![emu.bus@.ram];
    let ghost bus_start = devices(emu.bus@);
    let ghost mut buses: Seq<BusView> = seq![devices(emu.bus@)];
    let mut count: u64 = 0;
    loop
        invariant
            count <= max,
            emu.wf(),
            machine_run(regs, mems, buses),
            regs.len() == count + 1,
            regs[0] == cpu0,
            mems[0] == ram_start,
            buses[0] == bus_start,
            regs.last() == emu.cpu,
            mems.last() == emu.bus@.ram,
            buses.last() == devices(emu.bus@),
        ensures
            count == max || emu.cpu.halt || emu.panel@.run_state == RunState::Stopped,
        decreases max - count,
    {
        if count >= max {
            break;
        }
        let left = max - count;
        let chunk: u64 = if left < 1000 { left } else { 1000 };
        let ghost (r0, m0, b0) = (regs, mems, buses);
        let batch = emu.run_batch(chunk);
        proof {
            let (br, bm, bb) = choose|br: Seq<CoreRegisters>, bm: Seq<Seq<u8>>, bb: Seq<BusView>|
                #[trigger] machine_run(br, bm, bb) && br.len() == batch + 1 && br[0] == regs.last()
                    && bm[0] == mems.last() && bb[0] == buses.last() && br.last() == emu.cpu
                    && bm.last() == emu.bus@.ram && bb.last() == devices(emu.bus@);
            lemma_machine_run_append(r0, m0, b0, br, bm, bb);
            regs = r0 + br.drop_first();
            mems = m0 + bm.drop_first();
            buses = b0 + bb.drop_first();
            assert(regs[0] == r0[0]);
            assert(mems[0] == m0[0]);
            assert(buses[0] == b0[0]);
            assert(buses.last() == bb.last());
            assert(regs.last() == br.last());
            assert(mems.last() == bm.last());
        }
        count += batch;
        if batch == 0 {
            break;
        }
    }
    let pc = emu.control().pc;
    let mut out = String::new();
    push_text(&mut out, "IMSAI 8080 (");
    push_decimal(&mut out, max);
    push_text(&mut out, " instructions)\n");
    push_stopped_line(&mut out, pc, count);
    push_display_report(&mut out, emu);
    push_text(&mut out, "\n=== MEMORY DUMP ===\n");
    let d1 = dump_memory(emu, 0x0000, 8, "Vectors");
    push_text(&mut out, d1.as_str());
    let d2 = dump_memory(emu, 0x0100, 16, "TPA start");
    push_text(&mut out, d2.as_str());
    let d3 = dump_memory(emu, 0xFF00, 32, "High RAM");
    push_text(&mut out, d3.as_str());
    assert(out@ =~= interactive_text(
        max,
        pc,
        count as nat,
        emu.bus@.ram,
        crate::io::video::screen_text(emu.bus@.serial.video.rows),
    ));
    out
}

/// `s` with each `a b` pair, scanning from the left, replaced by `c`, as
/// `str::replace` does with a two-character pattern.
pub open spec fn replace_pair(s: Seq<char>, a: char, b: char, c: char) -> Seq<char>
    decreases s.len(),
{
    if s.len() == 0 {
        s
    } else if s.len() >= 2 && s[0] == a && s[1] == b {
        seq![c] + replace_pair(s.subrange(2, s.len() as int), a, b, c)
    } else {
        seq![s[0]] + replace_pair(s.drop_first(), a, b, c)
    }
}

/// Replace each `a b` pair of `v`, from the left, by `c`.
fn replace_pair_chars(v: &Vec<char>, a: char, b: char, c: char) -> (r: Vec<char>)
    ensures
        r@ == replace_pair(v@, a, b, c),
{
    let n = v.len();
    let mut out: Vec<char> = Vec::new();
    let mut i: usize = 0;
    assert(v@.subrange(0, n as int) =~= v@);
    assert(out@ + replace_pair(v@, a, b, c) =~= replace_pair(v@, a, b, c));
    while i < n
        invariant
            n == v@.len(),
            i <= n,
            out@ + replace_pair(v@.subrange(i as int, n as int), a, b, c) == replace_pair(v@, a, b, c),
        decreases n - i,
    {
        let ghost rest = v@.subrange(i as int, n as int);
        if i + 1 < n && v[i] == a && v[i + 1] == b {
            assert(rest.subrange(2, rest.len() as int) =~= v@.subrange(i + 2, n as int));
            out.push(c);
            i = i + 2;
        } else {
            assert(rest.drop_first() =~= v@.subrange(i + 1, n as int));
            out.push(v[i]);
            i = i + 1;
        }
        assert(out@ + replace_pair(v@.subrange(i as int, n as int), a, b, c) =~= replace_pair(v@, a, b, c));
    }
    assert(v@.subrange(n as int, n as int) =~= Seq::<char>::empty());
    assert(out@ + Seq::<char>::empty() =~= out@);
    out
}

/// Command text with the two-character escapes `\r` and `\n` turned into
/// carriage return and line feed.
pub open spec fn unescape_cmd(s: Seq<char>) -> Seq<char> {
    replace_pair(replace_pair(s, '\\', 'r', '\r'), '\\', 'n', '\n')
}

/// Turn the escapes `\r` and `\n` in `s` into carriage return and line feed.
pub fn unescape_command_text(s: &str) -> (r: String)
    ensures
        r@ == unescape_cmd(s@),
{
    let v = crate::program::chars_of(s);
    let v1 = replace_pair_chars(&v, '\\', 'r', '\r');
    let v2 = replace_pair_chars(&v1, '\\', 'n', '\n');
    let mut out = String::new();
    let mut i: usize = 0;
    while i < v2.len()
        invariant
            i <= v2@.len(),
            out@ == v2@.subrange(0, i as int),
        decreases v2@.len() - i,
    {
        out.push(v2[i]);
        assert(out@ =~= v2@.subrange(0, i + 1));
        i = i + 1;
    }
    assert(v2@.subrange(0, v2@.len() as int) =~= v2@);
    out
}

/// What scripted mode captures of a console byte written to port 0x00 or
/// 0x7B.
pub open spec fn capture_char(ch: u8) -> Seq<char> {
    if ch == 0x0D {
        seq!['\r']
    } else if ch == 0x0A {
        seq!['\n']
    } else if ch == 0x08 {
        seq!['\x08', ' ', '\x08']
    } else if ch >= 0x20 && ch < 0x7F {
        seq![ch as char]
    } else if ch < 0x20 && ch != 0x00 {
        "[0x"@ + hex2_seq(ch) + "]"@
    } else {
        Seq::empty()
    }
}

/// What scripted mode captures of a step.
pub open spec fn script_piece(r: StepRecord) -> Seq<char> {
    if r.op == 0xD3 && (r.post1 == 0x00 || r.post1 == 0x7B) {
        capture_char(r.after.a)
    } else {
        Seq::empty()
    }
}

/// The console output scripted mode captures over the steps.
pub open spec fn script_output(recs: Seq<StepRecord>) -> Seq<char>
    decreases recs.len(),
{
    if recs.len() == 0 {
        Seq::empty()
    } else {
        script_output(recs.drop_last()) + script_piece(recs.last())
    }
}

/// A step that starts a disk sector read: OUT 0x80 (READ SECTOR) to the
/// FD1771 command port 0x48.
pub open spec fn is_disk_read(r: StepRecord) -> bool {
    r.op == 0xD3 && r.post1 == 0x48 && r.after.a == 0x80
}

/// The disk read log over the steps, each with the track and sector
/// registers as they were after that step.
pub open spec fn disk_read_log(recs: Seq<StepRecord>, regs: Seq<(u8, u8)>) -> Seq<char>
    decreases recs.len(),
{
    if recs.len() == 0 || regs.len() == 0 {
        Seq::empty()
    } else {
        disk_read_log(recs.drop_last(), regs.drop_last()) + (if is_disk_read(recs.last()) {
            "DISK READ: track="@ + dec_seq(regs.last().0 as nat) + ", sector="@ + dec_seq(regs.last().1 as nat)
                + "\n"@
        } else {
            Seq::empty()
        })
    }
}

/// What a scripted run produced.
pub struct ScriptRun {
    /// Console output captured from OUT to port 0x00 or 0x7B.
    pub output: String,
    /// One line per disk sector read started.
    pub disk_log: String,
    /// Instructions executed.
    pub count: u64,
    /// PC after the last instruction.
    pub final_pc: u16,
}

/// The memory areas scripted mode shows at the end.
pub open spec fn key_memory_text(ram: Seq<u8>) -> Seq<char> {
    "\n=== KEY MEMORY AREAS ===\n"@ + dump_text(ram, 0x0000, 8, "Vectors"@) + dump_text(ram, 0x0005, 3, "CALL 5 vector"@)
        + dump_text(ram, 0x0100, 32, "TPA (0x0100)"@)
}

/// Append what scripted mode captures of a console byte.
fn push_capture(out: &mut String, ch: u8)
    ensures
        final(out)@ == old(out)@ + capture_char(ch),
{
    if ch == 0x0D {
        out.push('\r');
    } else if ch == 0x0A {
        out.push('\n');
    } else if ch == 0x08 {
        out.push('\x08');
        out.push(' ');
        out.push('\x08');
    } else if ch >= 0x20 && ch < 0x7F {
        out.push(ch as char);
    } else if ch < 0x20 && ch != 0x00 {
        push_text(out, "[0x");
        push_hex2(out, ch);
        push_text(out, "]");
    }
    assert(final(out)@ =~= old(out)@ + capture_char(ch));
}

/// The bus scripted mode starts running from: automatic rendering off and
/// `typed` appended to the console keyboard.
pub open spec fn scripted_start(b: BusView, typed: Seq<u8>) -> BusView {
    BusView {
        serial: crate::cards::serial::SerialView {
            keyboard: b.serial.keyboard + typed,
            video: crate::io::video::VideoView { auto_render: false, ..b.serial.video },
            ..b.serial
        },
        ..b
    }
}

/// The bytes scripted mode types for `cmd`: the UTF-8 bytes of the command
/// with its `\r` and `\n` escapes replaced, or none.
pub open spec fn typed_command(cmd: Option<&str>) -> Seq<u8> {
    match cmd {
        Some(c) => vstd::utf8::encode_utf8(unescape_cmd(c@)),
        None => Seq::empty(),
    }
}

/// The disk controller's track and sector registers after each step of a
/// run, from the bus devices along it.
pub open spec fn disk_regs(buses: Seq<BusView>) -> Seq<(u8, u8)> {
    Seq::new((buses.len() - 1) as nat, |i: int| (buses[i + 1].tarbell.track_reg, buses[i + 1].tarbell.sector_reg))
}

/// Scripted mode: turn off automatic rendering, type `cmd` (with `\r` and
/// `\n` escapes) on the console keyboard, run up to `max` instructions
/// (until the CPU halts) capturing console output and disk sector reads
/// (with the controller's track and sector registers after the read).
#[verifier::rlimit(90)]
pub fn run_scripted(emu: &mut Imsai8080, cmd: Option<&str>, max: u64) -> (r: ScriptRun)
    requires
        old(emu).wf(),
    ensures
        final(emu).wf(),
        exists|recs: Seq<StepRecord>, mems: Seq<Seq<u8>>, buses: Seq<BusView>|
            #[trigger] traced_run(
                recs,
                mems,
                buses,
                old(emu).cpu,
                old(emu).bus@.ram,
                scripted_start(old(emu).bus@, typed_command(cmd)),
                final(emu).cpu,
                final(emu).bus@.ram,
                final(emu).bus@,
            ) && ran_until_halt_or(recs, max)
                && script_output(recs) == r.output@ && disk_read_log(recs, disk_regs(buses)) == r.disk_log@
                && r.count == recs.len() && r.final_pc == recs.last().after.pc,
{
    let ghost bus_in = emu.bus@;
    emu.bus.console().set_auto_render(false);
    let ghost mut typed: Seq<u8> = Seq::empty();
    match cmd {
        Some(text) => {
            let input = unescape_command_text(text);
            let t = input.as_str();
            emu.bus.console().type_text(t);
            proof { typed = t.spec_bytes(); }
        },
        None => {},
    }
    assert(typed == typed_command(cmd));
    assert(emu.bus@ =~= scripted_start(bus_in, typed));
    let mut output = String::new();
    let mut disk_log = String::new();
    let ghost mut recs: Seq<StepRecord> = Seq::empty();
    let ghost mut regs: Seq<(u8, u8)> = Seq::empty();
    let mut count: u64 = 0;
    let mut last: StepRecord;
    emu.begin_batch();
    let ghost cpu0 = emu.cpu;
    let ghost ram0 = emu.core_memory();
    let ghost mut mems: Seq<Seq<u8>> = seq![emu.core_memory()];
    let ghost bus0 = emu.bus@;
    let ghost mut buses: Seq<BusView> = seq![devices(emu.bus@)];
    assert(recs =~= Seq::<StepRecord>::empty());
    loop
        invariant_except_break
            count < max || (max == 0 && count == 0),
            forall|i: int| 0 <= i < recs.len() ==> !(#[trigger] recs[i]).after.halt,
        invariant
            emu.wf(),
            traced_run(recs, mems, buses, cpu0, ram0, bus0, emu.cpu, emu.core_memory(), emu.bus@),
            count == recs.len(),
            regs.len() == recs.len(),
            regs == disk_regs(buses),
            output@ == script_output(recs),
            disk_log@ == disk_read_log(recs, regs),
        ensures
            1 <= recs.len(),
            traced_run(recs, mems, buses, cpu0, ram0, bus0, emu.cpu, emu.core_memory(), emu.bus@),
            count == recs.len(),
            regs.len() == recs.len(),
            regs == disk_regs(buses),
            output@ == script_output(recs),
            disk_log@ == disk_read_log(recs, regs),
            recs.len() <= max || (max == 0 && recs.len() == 1),
            forall|i: int| 0 <= i < recs.len() - 1 ==> !(#[trigger] recs[i]).after.halt,
            recs.len() < max ==> recs.last().after.halt,
            last == recs.last(),
        decreases (if max == 0 { 1 } else { max as int }) - count,
    {
        let rec = emu.traced_step();
        proof {
            lemma_records_push(recs, mems, buses, cpu0, rec, emu.core_memory(), devices(emu.bus@));
            mems = mems.push(emu.core_memory());
            buses = buses.push(devices(emu.bus@));
        }
        count += 1;
        if rec.op == 0xD3 && (rec.post1 == 0x00 || rec.post1 == 0x7B) {
            push_capture(&mut output, rec.after.a);
        }
        let track = emu.bus.tarbell_ref().current_track();
        let sector = emu.bus.tarbell_ref().current_sector();
        let ghost log_before = disk_log@;
        if rec.op == 0xD3 && rec.post1 == 0x48 && rec.after.a == 0x80 {
            push_text(&mut disk_log, "DISK READ: track=");
            push_decimal(&mut disk_log, track as u64);
            push_text(&mut disk_log, ", sector=");
            push_decimal(&mut disk_log, sector as u64);
            push_text(&mut disk_log, "\n");
        }
        proof {
            let prev = recs;
            let prev_regs = regs;
            recs = recs.push(rec);
            regs = regs.push((track, sector));
            assert(recs.drop_last() =~= prev);
            assert(regs.drop_last() =~= prev_regs);
            assert(regs =~= disk_regs(buses));
            assert(output@ =~= script_output(recs));
            assert(disk_log@ =~= disk_read_log(recs, regs));
        }
        last = rec;
        if rec.after.halt || count >= max {
            break;
        }
    }
    emu.end_batch();
    assert(traced_run(recs, mems, buses, cpu0, ram0, bus0, emu.cpu, emu.bus@.ram, emu.bus@));
    ScriptRun { output, disk_log, count, final_pc: last.after.pc }
}

/// The memory areas scripted mode shows at the end, as printed on
/// standard error.
pub fn key_memory_areas(emu: &Imsai8080) -> (r: String)
    ensures
        r@ == key_memory_text(emu.bus@.ram),
{
    let mut out = String::new();
    push_text(&mut out, "\n=== KEY MEMORY AREAS ===\n");
    let d1 = dump_memory_eprint(emu, 0x0000, 8, "Vectors");
    push_text(&mut out, d1.as_str());
    let d2 = dump_memory_eprint(emu, 0x0005, 3, "CALL 5 vector");
    push_text(&mut out, d2.as_str());
    let d3 = dump_memory_eprint(emu, 0x0100, 32, "TPA (0x0100)");
    push_text(&mut out, d3.as_str());
    assert(out@ =~= key_memory_text(emu.bus@.ram));
    out
}

} // verus!
