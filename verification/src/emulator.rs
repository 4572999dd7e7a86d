//! The machine: an 8080 core from the `intel8080` crate wired to the S-100
//! bus and the front panel.
//!
//! The registers are kept here as plain values and handed to the core for
//! each instruction; what the core leaves in them is read back afterwards.
//! The core keeps its own copy of the 64K address space. It is loaded from
//! the bus memory before instructions run and copied back afterwards; while a
//! batch runs, the bytes the panel and the I/O cards look at are copied over
//! one by one.
//!
//! What one instruction does is the core's business: it is named
//! `cpu_step`, a function of the registers and the address space, and the
//! contracts here say how the machine's runs are made of such steps
//! (`machine_step`, `machine_run`, `records_follow`). An instruction on which
//! the core would step a 16-bit address past 0xFFFF (`step_overflows`) is not
//! handed to it: the CPU halts there instead.
use vstd::prelude::*;
use intel8080::bus::SnapshotError;
use intel8080::cpu::CPU;
use crate::bus::{BusView, ImsaiBus, spec_load, lemma_load_read_back, spec_bus_io_in, spec_bus_io_out};
use crate::cards::serial::spec_poll_rx_card;
use crate::cards::front_panel::{
    CpuControl, FrontPanel, PanelView, RunState, action_start, spec_actions, spec_clear_transient,
    spec_finish_instruction, spec_finish_single_step, spec_power_on_panel, spec_processed_panel,
};

verus! {

#[verifier::external_type_specification]
#[verifier::external_body]
pub struct ExCore(CPU);

#[verifier::external_type_specification]
#[verifier::external_body]
pub struct ExSnapshotError(SnapshotError);

/// The bytes of a core's address space (the `Bus` in its `bus` field), in
/// address order.
pub uninterp spec fn cpu_address_space(cpu: CPU) -> Seq<u8>;

/// The core has no interrupt request pending (`int.0` false), no ROM range
/// set on its bus and its debug output off (`debug.switch` false).
pub uninterp spec fn cpu_plain(cpu: CPU) -> bool;

/// The registers a core holds (its `reg`, `sp`, `pc` and `halt` fields, and
/// its condition bits as `Flags::as_byte` gives them).
pub uninterp spec fn cpu_registers(cpu: CPU) -> CoreRegisters;

/// What `CPU::execute` does from registers `regs` and address space `mem`
/// when no interrupt is pending: the registers, the address space and the
/// cycle count afterwards.
pub uninterp spec fn cpu_step(regs: CoreRegisters, mem: Seq<u8>) -> (CoreRegisters, Seq<u8>, u32);

/// The CPU registers as plain values.
#[derive(Clone, Copy, Debug, PartialEq, Eq, Structural)]
pub struct CoreRegisters {
    pub a: u8,
    pub b: u8,
    pub c: u8,
    pub d: u8,
    pub e: u8,
    pub h: u8,
    pub l: u8,
    pub sp: u16,
    pub pc: u16,
    /// Condition bits as the PSW byte (`Flags::as_byte`: bit 1 always set).
    pub flags: u8,
    pub halt: bool,
}

/// The registers of a core fresh from `CPU::new`: all zero, no condition
/// bit set, not halted.
pub open spec fn power_on_registers() -> CoreRegisters {
    CoreRegisters { a: 0, b: 0, c: 0, d: 0, e: 0, h: 0, l: 0, sp: 0, pc: 0, flags: 0x02, halt: false }
}

/// `r` as the core holds it once loaded: the flags byte keeps the five
/// condition bits (7, 6, 4, 2, 0) and has bit 1 set.
pub open spec fn as_loaded(r: CoreRegisters) -> CoreRegisters {
    CoreRegisters { flags: (r.flags & 0xD5) | 0x02, ..r }
}

/// The condition in bits 3-5 of a conditional jump, call or return (NZ, Z,
/// NC, C, PO, PE, P, M) holds for the flags byte.
pub open spec fn condition_met(op: u8, flags: u8) -> bool {
    let cc = (op >> 3u8) & 7u8;
    if cc == 0 {
        flags & 0x40 == 0
    } else if cc == 1 {
        flags & 0x40 != 0
    } else if cc == 2 {
        flags & 0x01 == 0
    } else if cc == 3 {
        flags & 0x01 != 0
    } else if cc == 4 {
        flags & 0x04 == 0
    } else if cc == 5 {
        flags & 0x04 != 0
    } else if cc == 6 {
        flags & 0x80 == 0
    } else {
        flags & 0x80 != 0
    }
}

/// How far an instruction that does not jump moves the PC: 2 for MVI, the
/// immediate arithmetic group, IN and OUT; 3 for LXI, STA, LDA, SHLD and
/// LHLD; 1 otherwise.
pub open spec fn step_length(op: u8) -> int {
    if op & 0xC7 == 0x06 || op & 0xC7 == 0xC6 || op == 0xDB || op == 0xD3 {
        2
    } else if op & 0xCF == 0x01 || op == 0x32 || op == 0x3A || op == 0x22 || op == 0x2A {
        3
    } else {
        1
    }
}

/// The little-endian word at `a`.
pub open spec fn word_at(mem: Seq<u8>, a: int) -> int {
    mem[a] as int + 256 * (mem[a + 1] as int)
}

/// The core would step a 16-bit address past 0xFFFF on this instruction:
/// the PC past the end, a stack access at SP = 1 (pushing) or 0xFFFF
/// (popping, exchanging), or a word access at 0xFFFF. `CPU::execute` does
/// that arithmetic unchecked, which panics in a debug build.
pub open spec fn step_overflows(r: CoreRegisters, mem: Seq<u8>) -> bool {
    let pc = r.pc as int;
    let sp = r.sp as int;
    let op = mem[pc];
    if r.halt || op == 0xE9 {
        false
    } else if op == 0xC3 {
        pc >= 0xFFFE
    } else if op & 0xC7 == 0xC2 {
        pc >= 0xFFFE || (!condition_met(op, r.flags) && pc >= 0xFFFD)
    } else if op == 0xCD {
        pc >= 0xFFFE || sp == 1
    } else if op & 0xC7 == 0xC4 {
        pc >= 0xFFFE || (if condition_met(op, r.flags) { sp == 1 } else { pc >= 0xFFFD })
    } else if op == 0xC9 {
        sp == 0xFFFF
    } else if op & 0xC7 == 0xC0 {
        if condition_met(op, r.flags) { sp == 0xFFFF } else { pc == 0xFFFF }
    } else if op & 0xC7 == 0xC7 {
        pc == 0xFFFF || sp == 1
    } else {
        ||| pc + step_length(op) > 0xFFFF
        ||| (op & 0xCF == 0xC5 && sp == 1)
        ||| ((op & 0xCF == 0xC1 || op == 0xE3) && sp == 0xFFFF)
        ||| ((op == 0x2A || op == 0x22) && word_at(mem, pc + 1) == 0xFFFF)
    }
}

/// The bus devices after the console keyboard is polled.
pub open spec fn polled(b: BusView) -> BusView {
    BusView { serial: spec_poll_rx_card(b.serial), ..b }
}

/// The bus devices of `b` (serial card and Tarbell controller), with its
/// memory left out.
pub open spec fn devices(b: BusView) -> BusView {
    BusView { ram: Seq::empty(), ..b }
}

/// The instruction at `before.pc` in `mem` is an IN (0xDB) or OUT (0xD3)
/// the CPU is not halted for: its port is served by the bus.
pub open spec fn is_io_step(before: CoreRegisters, mem: Seq<u8>) -> bool {
    let op = mem[before.pc as int];
    !before.halt && (op == 0xDB || op == 0xD3)
}

/// The port operand of the instruction at `before.pc` in `mem`.
pub open spec fn io_port(before: CoreRegisters, mem: Seq<u8>) -> u8 {
    mem[before.pc.wrapping_add(1) as int]
}

/// One instruction as the machine runs it, from registers `before`, core
/// memory `mem` and bus devices `bus` (see `devices`) to `after`, `mem2` and
/// `bus2`. One the core would overflow on is not run: the CPU halts there.
/// Otherwise the core steps from the loaded registers, and an IN or OUT is
/// served by the bus as `ImsaiBus::service_io_instruction` does: IN reads
/// the port into the accumulator, OUT writes the accumulator to it.
pub open spec fn machine_step(
    before: CoreRegisters,
    mem: Seq<u8>,
    bus: BusView,
    after: CoreRegisters,
    mem2: Seq<u8>,
    bus2: BusView,
) -> bool {
    let regs = as_loaded(before);
    let op = mem[before.pc as int];
    let port = io_port(before, mem);
    if step_overflows(regs, mem) {
        after == (CoreRegisters { halt: true, ..before }) && mem2 == mem && bus2 == bus
    } else {
        let s = cpu_step(regs, mem);
        &&& mem2 == s.1
        &&& after == (CoreRegisters { a: after.a, ..s.0 })
        &&& if !is_io_step(before, mem) {
            after.a == s.0.a && bus2 == bus
        } else if op == 0xDB {
            after.a == spec_bus_io_in(bus, port).0 && bus2 == devices(spec_bus_io_in(bus, port).1)
        } else {
            after.a == before.a && bus2 == devices(spec_bus_io_out(bus, port, before.a))
        }
    }
}

/// Cycles the machine counts for that instruction: none when it is not run.
pub open spec fn machine_step_cycles(before: CoreRegisters, mem: Seq<u8>) -> u32 {
    if step_overflows(as_loaded(before), mem) {
        0
    } else {
        cpu_step(as_loaded(before), mem).2
    }
}

/// `regs`, `mems` and `buses` are the registers, core memory and bus at the
/// start of a run of instructions and after each of them: each follows from
/// the one before by `machine_step`.
pub open spec fn machine_run(regs: Seq<CoreRegisters>, mems: Seq<Seq<u8>>, buses: Seq<BusView>) -> bool
    decreases regs.len(),
{
    &&& regs.len() >= 1
    &&& mems.len() == regs.len()
    &&& buses.len() == regs.len()
    &&& regs.len() > 1 ==> {
        let n = regs.len() - 1;
        &&& machine_run(regs.drop_last(), mems.drop_last(), buses.drop_last())
        &&& machine_step(regs[n - 1], mems[n - 1], buses[n - 1], regs[n], mems[n], buses[n])
    }
}

/// Like `machine_run`, with the console keyboard polled after each
/// instruction, as the terminal runs the machine.
pub open spec fn terminal_run(regs: Seq<CoreRegisters>, mems: Seq<Seq<u8>>, buses: Seq<BusView>) -> bool
    decreases regs.len(),
{
    &&& regs.len() >= 1
    &&& mems.len() == regs.len()
    &&& buses.len() == regs.len()
    &&& regs.len() > 1 ==> {
        let n = regs.len() - 1;
        &&& terminal_run(regs.drop_last(), mems.drop_last(), buses.drop_last())
        &&& exists|mid: BusView|
            #[trigger] machine_step(regs[n - 1], mems[n - 1], buses[n - 1], regs[n], mems[n], mid)
                && buses[n] == polled(mid)
    }
}

/// Loading a loaded register set changes nothing more.
pub proof fn lemma_loaded_twice(r: CoreRegisters)
    ensures
        as_loaded(as_loaded(r)) == as_loaded(r),
{
    let f = r.flags;
    assert(((((f & 0xD5) | 0x02) & 0xD5) | 0x02) == ((f & 0xD5) | 0x02)) by (bit_vector);
}

/// `r` as the core holds it once loaded.
fn loaded(r: CoreRegisters) -> (l: CoreRegisters)
    ensures
        l == as_loaded(r),
{
    CoreRegisters { flags: (r.flags & 0xD5) | 0x02, ..r }
}

/// Whether the condition of conditional instruction `op` holds for `flags`.
fn condition_holds(op: u8, flags: u8) -> (b: bool)
    ensures
        b == condition_met(op, flags),
{
    let cc = (op >> 3u8) & 7u8;
    if cc == 0 {
        flags & 0x40 == 0
    } else if cc == 1 {
        flags & 0x40 != 0
    } else if cc == 2 {
        flags & 0x01 == 0
    } else if cc == 3 {
        flags & 0x01 != 0
    } else if cc == 4 {
        flags & 0x04 == 0
    } else if cc == 5 {
        flags & 0x04 != 0
    } else if cc == 6 {
        flags & 0x80 == 0
    } else {
        flags & 0x80 != 0
    }
}

/// `CPU::new(0xFFFF)`. Stated: its address space is 65536 zero bytes
/// (`Bus::new` fills `size + 1` bytes with 0), and it is plain: `int` is
/// `(false, 0)`, the bus has no ROM range and `Debug::new` leaves `switch`
/// off.
#[verifier::external_body]
fn core_new() -> (r: CPU)
    ensures
        cpu_address_space(r) == Seq::new(65536, |i: int| 0u8),
        cpu_plain(r),
{
    CPU::new(0xFFFF)
}

/// The core's public register fields (`reg`, `sp`, `pc`, `halt`) and
/// `Flags::as_byte`: the registers the core holds.
#[verifier::external_body]
fn core_registers(cpu: &CPU) -> (r: CoreRegisters)
    ensures
        r == cpu_registers(*cpu),
{
    CoreRegisters {
        a: cpu.reg.a,
        b: cpu.reg.b,
        c: cpu.reg.c,
        d: cpu.reg.d,
        e: cpu.reg.e,
        h: cpu.reg.h,
        l: cpu.reg.l,
        sp: cpu.sp,
        pc: cpu.pc,
        flags: cpu.flags.as_byte(),
        halt: cpu.halt,
    }
}

/// Assigns the core's register fields and sets the condition bits with
/// `Flags::from_byte`. Stated: the core then holds `r`, with the flags byte
/// as `Flags::as_byte` gives it back (bits 7, 6, 4, 2 and 0 kept, bit 1
/// set); the address space and the rest of the core are left as they were.
#[verifier::external_body]
fn core_put_registers(cpu: &mut CPU, r: CoreRegisters)
    ensures
        cpu_registers(*final(cpu)) == as_loaded(r),
        cpu_address_space(*final(cpu)) == cpu_address_space(*old(cpu)),
        cpu_plain(*final(cpu)) == cpu_plain(*old(cpu)),
{
    cpu.reg.a = r.a;
    cpu.reg.b = r.b;
    cpu.reg.c = r.c;
    cpu.reg.d = r.d;
    cpu.reg.e = r.e;
    cpu.reg.h = r.h;
    cpu.reg.l = r.l;
    cpu.sp = r.sp;
    cpu.pc = r.pc;
    cpu.flags.from_byte(r.flags);
    cpu.halt = r.halt;
}

/// `CPU::execute`: one instruction from `pc` (nothing when halted); returns
/// the clock cycles it took. IN and OUT only step over their port byte.
/// Stated: the registers, the address space and the cycle count afterwards
/// are `cpu_step` of the registers and address space before (on a plain
/// core no interrupt is taken, no write is dropped and no debug text is
/// made, so nothing else of the core enters; `inte` only matters with an
/// interrupt pending), the core stays plain (it never requests an
/// interrupt, sets a ROM range or turns debug on itself), and the address
/// space keeps its length (the core writes it through `Bus::write_byte` and
/// `Bus::write_word` only). Required: a plain core with a 64K address space
/// and a state on which the core does not overflow a 16-bit address
/// (`step_overflows`).
#[verifier::external_body]
fn core_execute(cpu: &mut CPU) -> (r: u32)
    requires
        cpu_address_space(*old(cpu)).len() == 65536,
        cpu_plain(*old(cpu)),
        !step_overflows(cpu_registers(*old(cpu)), cpu_address_space(*old(cpu))),
    ensures
        cpu_plain(*final(cpu)),
        (cpu_registers(*final(cpu)), cpu_address_space(*final(cpu)), r) == cpu_step(
            cpu_registers(*old(cpu)),
            cpu_address_space(*old(cpu)),
        ),
        cpu_address_space(*final(cpu)).len() == cpu_address_space(*old(cpu)).len(),
{
    cpu.execute()
}

/// `Bus::read_byte` on the core's address space: the byte at `address`, or
/// 0 past its end.
#[verifier::external_body]
fn core_read_byte(cpu: &CPU, address: u16) -> (r: u8)
    ensures
        r == (if (address as int) < cpu_address_space(*cpu).len() {
            cpu_address_space(*cpu)[address as int]
        } else {
            0u8
        }),
{
    cpu.bus.read_byte(address)
}

/// `Bus::load_from_vec(image, 0)`: refuses an image longer than the
/// address space and leaves it alone; otherwise copies the image over its
/// start. The rest of the core is not touched.
#[verifier::external_body]
fn core_load(cpu: &mut CPU, image: Vec<u8>) -> (r: Result<(), SnapshotError>)
    ensures
        r.is_ok() <==> image@.len() <= cpu_address_space(*old(cpu)).len(),
        r.is_ok() ==> cpu_address_space(*final(cpu)) == image@ + cpu_address_space(*old(cpu)).subrange(
            image@.len() as int,
            cpu_address_space(*old(cpu)).len() as int,
        ),
        r.is_err() ==> cpu_address_space(*final(cpu)) == cpu_address_space(*old(cpu)),
        cpu_plain(*final(cpu)) == cpu_plain(*old(cpu)),
{
    cpu.bus.load_from_vec(image, 0)
}

/// `Bus::export_address_space`: a copy of the core's address space.
#[verifier::external_body]
fn core_export(cpu: &CPU) -> (r: Vec<u8>)
    ensures
        r@ == cpu_address_space(*cpu),
{
    cpu.bus.export_address_space()
}

/// What one traced instruction showed: the registers and the opcode with the
/// three bytes after it before it ran, the registers after, and the two bytes
/// after the opcode as they were afterwards.
#[derive(Clone, Copy, Debug)]
pub struct StepRecord {
    pub before: CoreRegisters,
    pub op: u8,
    pub b1: u8,
    pub b2: u8,
    pub b3: u8,
    pub after: CoreRegisters,
    pub post1: u8,
    pub post2: u8,
}

/// Record `r` shows one machine step from core memory `mem` and bus devices
/// `bus` to `mem2` and `bus2`: the opcode and the three bytes after it from
/// `mem`, the two bytes after the opcode from `mem2`, and the registers
/// before and after the step.
pub open spec fn record_shows(r: StepRecord, mem: Seq<u8>, bus: BusView, mem2: Seq<u8>, bus2: BusView) -> bool {
    let pc = r.before.pc;
    &&& r.op == mem[pc as int]
    &&& r.b1 == mem[pc.wrapping_add(1) as int]
    &&& r.b2 == mem[pc.wrapping_add(2) as int]
    &&& r.b3 == mem[pc.wrapping_add(3) as int]
    &&& r.post1 == mem2[pc.wrapping_add(1) as int]
    &&& r.post2 == mem2[pc.wrapping_add(2) as int]
    &&& machine_step(r.before, mem, bus, r.after, mem2, bus2)
}

/// `recs` are the records of a run of instructions that started with
/// registers `start`; `mems` and `buses` are the core memory and bus devices
/// at its start and after each instruction: each record starts where the
/// one before left the registers and shows one machine step.
pub open spec fn records_follow(
    recs: Seq<StepRecord>,
    mems: Seq<Seq<u8>>,
    buses: Seq<BusView>,
    start: CoreRegisters,
) -> bool
    decreases recs.len(),
{
    &&& mems.len() == recs.len() + 1
    &&& buses.len() == recs.len() + 1
    &&& recs.len() > 0 ==> {
        let n = recs.len() - 1;
        &&& records_follow(recs.drop_last(), mems.drop_last(), buses.drop_last(), start)
        &&& recs[n].before == (if n == 0 { start } else { recs[n - 1].after })
        &&& record_shows(recs[n], mems[n], buses[n], mems[n + 1], buses[n + 1])
    }
}

/// `recs`, with `mems` and `buses` the core memory and bus devices along the
/// way, are a traced run of the machine from registers `cpu0`, memory `ram0`
/// and bus `bus0` to registers `cpu1`, memory `ram1` and bus `bus1`.
pub open spec fn traced_run(
    recs: Seq<StepRecord>,
    mems: Seq<Seq<u8>>,
    buses: Seq<BusView>,
    cpu0: CoreRegisters,
    ram0: Seq<u8>,
    bus0: BusView,
    cpu1: CoreRegisters,
    ram1: Seq<u8>,
    bus1: BusView,
) -> bool {
    &&& records_follow(recs, mems, buses, cpu0)
    &&& mems[0] == ram0
    &&& mems.last() == ram1
    &&& buses[0] == devices(bus0)
    &&& buses.last() == devices(bus1)
    &&& cpu1 == (if recs.len() == 0 { cpu0 } else { recs.last().after })
}

/// A run followed by a run that starts where it ended is one run.
pub proof fn lemma_machine_run_append(
    r1: Seq<CoreRegisters>,
    m1: Seq<Seq<u8>>,
    b1: Seq<BusView>,
    r2: Seq<CoreRegisters>,
    m2: Seq<Seq<u8>>,
    b2: Seq<BusView>,
)
    requires
        machine_run(r1, m1, b1),
        machine_run(r2, m2, b2),
        r2[0] == r1.last(),
        m2[0] == m1.last(),
        b2[0] == b1.last(),
    ensures
        machine_run(r1 + r2.drop_first(), m1 + m2.drop_first(), b1 + b2.drop_first()),
    decreases r2.len(),
{
    if r2.len() == 1 {
        assert(r1 + r2.drop_first() =~= r1);
        assert(m1 + m2.drop_first() =~= m1);
        assert(b1 + b2.drop_first() =~= b1);
    } else {
        let rr = r2.drop_last();
        let mm = m2.drop_last();
        let bb = b2.drop_last();
        lemma_machine_run_append(r1, m1, b1, rr, mm, bb);
        let big_r = r1 + r2.drop_first();
        let big_m = m1 + m2.drop_first();
        let big_b = b1 + b2.drop_first();
        assert(big_r.drop_last() =~= r1 + rr.drop_first());
        assert(big_m.drop_last() =~= m1 + mm.drop_first());
        assert(big_b.drop_last() =~= b1 + bb.drop_first());
        let n = big_r.len() - 1;
        let k = r2.len() - 1;
        assert(big_r[n] == r2[k]);
        assert(big_m[n] == m2[k]);
        assert(big_b[n] == b2[k]);
        assert(big_r[n - 1] == r2[k - 1]);
        assert(big_m[n - 1] == m2[k - 1]);
        assert(big_b[n - 1] == b2[k - 1]);
    }
}

/// A record that starts where a run left off and shows one more step
/// extends the run.
pub proof fn lemma_records_push(
    recs: Seq<StepRecord>,
    mems: Seq<Seq<u8>>,
    buses: Seq<BusView>,
    start: CoreRegisters,
    r: StepRecord,
    mem2: Seq<u8>,
    bus2: BusView,
)
    requires
        records_follow(recs, mems, buses, start),
        r.before == (if recs.len() == 0 { start } else { recs.last().after }),
        record_shows(r, mems.last(), buses.last(), mem2, bus2),
    ensures
        records_follow(recs.push(r), mems.push(mem2), buses.push(bus2), start),
{
    assert(recs.push(r).drop_last() =~= recs);
    assert(mems.push(mem2).drop_last() =~= mems);
    assert(buses.push(bus2).drop_last() =~= buses);
}

/// The machine's 8080 core. Only this module reaches into it, so it never
/// gets an interrupt request, a ROM range or debug output.
pub struct Core {
    cpu: CPU,
}

impl Core {
    /// The core's copy of the address space.
    pub closed spec fn memory(&self) -> Seq<u8> {
        cpu_address_space(self.cpu)
    }

    /// No interrupt request, no ROM range, no debug output.
    pub closed spec fn plain(&self) -> bool {
        cpu_plain(self.cpu)
    }
}

/// IMSAI 8080: CPU core, S-100 bus and front panel.
pub struct Imsai8080 {
    /// The CPU registers; the core gets them before each instruction and
    /// they are read back from it after.
    pub cpu: CoreRegisters,
    pub bus: ImsaiBus,
    pub panel: FrontPanel,
    /// Clock cycles executed so far.
    pub cycles: u64,
    /// The 8080 core: interrupt state and its copy of the address space.
    pub core: Core,
}

/// What running instructions leaves alone on the panel: the run state, the
/// switches and the switch presses waiting to be processed.
pub open spec fn panel_controls_kept(before: PanelView, after: PanelView) -> bool {
    &&& after.run_state == before.run_state
    &&& after.address_switches == before.address_switches
    &&& after.data_switches == before.data_switches
    &&& after.pending == before.pending
}

/// Processing the panel's pending switches against CPU lines `cpu` turned
/// panel `p` and bus `b` into `p2` and `b2`, and answered `r` (keep running).
pub open spec fn panel_processed(p: PanelView, b: BusView, cpu: CpuControl, p2: PanelView, b2: BusView, r: bool) -> bool {
    let s = spec_actions(action_start(p, b.ram, cpu), p.pending);
    &&& p2 == spec_processed_panel(s)
    &&& b2 == (BusView { ram: s.ram, ..b })
    &&& r == s.should_run
}

impl Imsai8080 {
    /// The core's copy of the address space.
    pub open spec fn core_memory(&self) -> Seq<u8> {
        self.core.memory()
    }

    /// The core has no interrupt request, no ROM range and no debug output.
    pub open spec fn core_plain(&self) -> bool {
        self.core.plain()
    }

    /// The CPU lines the panel drives: program counter and halt state.
    pub open spec fn control_lines(&self) -> CpuControl {
        CpuControl { pc: self.cpu.pc, halted: self.cpu.halt }
    }

    /// Bus and panel are well formed and the core spans 64K.
    pub open spec fn wf(&self) -> bool {
        &&& self.bus.wf()
        &&& self.panel.wf()
        &&& self.core_memory().len() == 65536
        &&& self.core_plain()
    }

    /// Power-on state: RAM=0xFF, panel STOPPED, no software loaded; the
    /// core's registers and address space are zero.
    pub fn new() -> (r: Self)
        ensures
            r.wf(),
            r.bus@.ram == Seq::new(65536, |i: int| 0xFFu8),
            r.bus@.tarbell == crate::chips::fd1771::spec_power_on(),
            r.panel@ == spec_power_on_panel(),
            r.cycles == 0,
            r.cpu == power_on_registers(),
            r.core_memory() == Seq::new(65536, |i: int| 0u8),
    {
        let cpu = CoreRegisters { a: 0, b: 0, c: 0, d: 0, e: 0, h: 0, l: 0, sp: 0, pc: 0, flags: 0x02, halt: false };
        Self { cpu, bus: ImsaiBus::new(), panel: FrontPanel::new(), cycles: 0, core: Core { cpu: core_new() } }
    }

    /// Copy `data` into memory at `start`.
    pub fn load_program(&mut self, start: u16, data: &[u8])
        requires
            old(self).wf(),
        ensures
            final(self).wf(),
            final(self).bus@ == (BusView { ram: spec_load(old(self).bus@.ram, start, data@), ..old(self).bus@ }),
            final(self).panel == old(self).panel,
            final(self).cycles == old(self).cycles,
            final(self).cpu == old(self).cpu,
            final(self).core == old(self).core,
    {
        self.bus.load(start, data);
    }

    /// The CPU lines the panel drives: program counter and halt state.
    pub fn control(&self) -> (r: CpuControl)
        ensures
            r == self.control_lines(),
    {
        CpuControl { pc: self.cpu.pc, halted: self.cpu.halt }
    }

    /// Put the panel's idea of the CPU lines into the CPU: PC and halt state.
    pub fn set_control(&mut self, c: CpuControl)
        ensures
            final(self).cpu == (CoreRegisters { pc: c.pc, halt: c.halted, ..old(self).cpu }),
            final(self).bus == old(self).bus,
            final(self).panel == old(self).panel,
            final(self).cycles == old(self).cycles,
            final(self).core == old(self).core,
    {
        self.cpu.pc = c.pc;
        self.cpu.halt = c.halted;
    }

    /// Set the program counter and the stack pointer.
    pub fn set_pc_sp(&mut self, pc: u16, sp: u16)
        ensures
            final(self).cpu == (CoreRegisters { pc, sp, ..old(self).cpu }),
            final(self).bus == old(self).bus,
            final(self).panel == old(self).panel,
            final(self).cycles == old(self).cycles,
            final(self).core == old(self).core,
    {
        self.cpu.pc = pc;
        self.cpu.sp = sp;
    }

    /// Clear the CPU's halt state.
    pub fn resume(&mut self)
        ensures
            final(self).cpu == (CoreRegisters { halt: false, ..old(self).cpu }),
            final(self).bus == old(self).bus,
            final(self).panel == old(self).panel,
            final(self).cycles == old(self).cycles,
            final(self).core == old(self).core,
    {
        self.cpu.halt = false;
    }

    /// The CPU registers.
    pub fn registers(&self) -> (r: CoreRegisters)
        ensures
            r == self.cpu,
    {
        self.cpu
    }

    /// Set the program counter and clear the halt state.
    pub fn set_pc(&mut self, pc: u16)
        ensures
            final(self).cpu == (CoreRegisters { pc, halt: false, ..old(self).cpu }),
            final(self).bus == old(self).bus,
            final(self).panel == old(self).panel,
            final(self).cycles == old(self).cycles,
            final(self).core == old(self).core,
    {
        self.cpu.pc = pc;
        self.cpu.halt = false;
    }

    /// Bus memory into the core's address space.
    fn sync_in(&mut self)
        requires
            old(self).wf(),
        ensures
            final(self).wf(),
            final(self).core_memory() == old(self).bus@.ram,
            final(self).cpu == old(self).cpu,
            final(self).bus == old(self).bus,
            final(self).panel == old(self).panel,
            final(self).cycles == old(self).cycles,
    {
        proof { self.bus.lemma_ram_len(); }
        let image = self.bus.ram_image();
        let ghost before = self.core_memory();
        let r = core_load(&mut self.core.cpu, image);
        proof {
            assert(r.is_ok());
            assert(before.subrange(65536, 65536) =~= Seq::<u8>::empty());
            assert(self.core_memory() =~= old(self).bus@.ram);
        }
    }

    /// The core's address space back into bus memory.
    fn sync_out(&mut self)
        requires
            old(self).wf(),
        ensures
            final(self).wf(),
            final(self).bus@ == (BusView { ram: old(self).core_memory(), ..old(self).bus@ }),
            final(self).cpu == old(self).cpu,
            final(self).core == old(self).core,
            final(self).panel == old(self).panel,
            final(self).cycles == old(self).cycles,
    {
        proof { self.bus.lemma_ram_len(); }
        let image = core_export(&self.core.cpu);
        self.bus.load(0, image.as_slice());
        proof {
            let ram = old(self).bus@.ram;
            let d = old(self).core_memory();
            lemma_load_read_back(ram, 0, d);
            assert forall|a: int| 0 <= a < 65536 implies #[trigger] spec_load(ram, 0, d)[a] == d[a] by {
                assert((0 + a) % 65536 == a);
            }
            assert(spec_load(ram, 0, d) =~= d);
        }
    }

    /// Whether the core would overflow a 16-bit address running the next
    /// instruction from registers `r` on its memory.
    fn step_would_overflow(&self, r: CoreRegisters) -> (b: bool)
        requires
            self.wf(),
        ensures
            b == step_overflows(r, self.core_memory()),
    {
        let pc = r.pc;
        let sp = r.sp;
        let op = core_read_byte(&self.core.cpu, pc);
        if r.halt || op == 0xE9 {
            false
        } else if op == 0xC3 {
            pc >= 0xFFFE
        } else if op & 0xC7 == 0xC2 {
            pc >= 0xFFFE || (!condition_holds(op, r.flags) && pc >= 0xFFFD)
        } else if op == 0xCD {
            pc >= 0xFFFE || sp == 1
        } else if op & 0xC7 == 0xC4 {
            pc >= 0xFFFE || (if condition_holds(op, r.flags) { sp == 1 } else { pc >= 0xFFFD })
        } else if op == 0xC9 {
            sp == 0xFFFF
        } else if op & 0xC7 == 0xC0 {
            if condition_holds(op, r.flags) { sp == 0xFFFF } else { pc == 0xFFFF }
        } else if op & 0xC7 == 0xC7 {
            pc == 0xFFFF || sp == 1
        } else {
            let len: u32 = if op & 0xC7 == 0x06 || op & 0xC7 == 0xC6 || op == 0xDB || op == 0xD3 {
                2
            } else if op & 0xCF == 0x01 || op == 0x32 || op == 0x3A || op == 0x22 || op == 0x2A {
                3
            } else {
                1
            };
            if pc as u32 + len > 0xFFFF {
                true
            } else if op & 0xCF == 0xC5 && sp == 1 {
                true
            } else if (op & 0xCF == 0xC1 || op == 0xE3) && sp == 0xFFFF {
                true
            } else if op == 0x2A || op == 0x22 {
                let lo = core_read_byte(&self.core.cpu, pc + 1);
                let hi = core_read_byte(&self.core.cpu, pc + 2);
                lo as u32 + 256 * (hi as u32) == 0xFFFF
            } else {
                false
            }
        }
    }

    /// One instruction on the core, with memory already there: IN and OUT
    /// are served by the bus, the cycle count grows, and the opcode byte at
    /// the new PC and the byte after the old PC are copied from the core to
    /// bus memory. An instruction the core would overflow an address on is
    /// not run: the CPU halts. Returns the PC before, the opcode, the
    /// accumulator after and the cycles taken.
    fn execute_core(&mut self) -> (r: (u16, u8, u8, u32))
        requires
            old(self).wf(),
        ensures
            final(self).wf(),
            final(self).panel == old(self).panel,
            machine_step(
                old(self).cpu,
                old(self).core_memory(),
                devices(old(self).bus@),
                final(self).cpu,
                final(self).core_memory(),
                devices(final(self).bus@),
            ),
            r.3 == machine_step_cycles(old(self).cpu, old(self).core_memory()),
            final(self).cycles == old(self).cycles.wrapping_add(r.3 as u64),
            r.0 == old(self).cpu.pc,
            r.1 == old(self).core_memory()[old(self).cpu.pc as int],
            r.2 == final(self).cpu.a,
            final(self).bus@.ram[old(self).cpu.pc.wrapping_add(1) as int]
                == final(self).core_memory()[old(self).cpu.pc.wrapping_add(1) as int],
            final(self).bus@.ram[final(self).cpu.pc as int] == final(self).core_memory()[final(self).cpu.pc as int],
    {
        let regs = loaded(self.cpu);
        let pc_before = regs.pc;
        let op = core_read_byte(&self.core.cpu, pc_before);
        let port_addr = pc_before.wrapping_add(1);
        let mut cycles: u32 = 0;
        if self.step_would_overflow(regs) {
            self.cpu.halt = true;
        } else {
            let mut a_after: Option<u8> = None;
            if !regs.halt && (op == 0xDB || op == 0xD3) {
                let port = core_read_byte(&self.core.cpu, port_addr);
                proof { self.bus.lemma_ram_len(); }
                self.bus.mem_write(pc_before, op);
                proof { self.bus.lemma_ram_len(); }
                self.bus.mem_write(port_addr, port);
                proof { self.bus.lemma_ram_len(); }
                assert(self.bus@.ram[pc_before as int] == op);
                let a = self.bus.service_io_instruction(pc_before, regs.a);
                assert(op == 0xD3 ==> a == regs.a);
                a_after = Some(a);
            }
            core_put_registers(&mut self.core.cpu, regs);
            proof { lemma_loaded_twice(self.cpu); }
            cycles = core_execute(&mut self.core.cpu);
            let mut after = core_registers(&self.core.cpu);
            match a_after {
                Some(a) => { after.a = a; },
                None => {},
            }
            self.cpu = after;
        }
        self.cycles = self.cycles.wrapping_add(cycles as u64);
        let new_pc = self.cpu.pc;
        let b0 = core_read_byte(&self.core.cpu, new_pc);
        assert(b0 == self.core_memory()[new_pc as int]);
        proof { self.bus.lemma_ram_len(); }
        self.bus.mem_write(new_pc, b0);
        let b1 = core_read_byte(&self.core.cpu, port_addr);
        assert(b1 == self.core_memory()[port_addr as int]);
        proof { self.bus.lemma_ram_len(); }
        self.bus.mem_write(port_addr, b1);
        proof { self.bus.lemma_ram_len(); }
        (pc_before, op, self.cpu.a, cycles)
    }

    /// One instruction in RUN mode with memory already in the core; the
    /// panel LEDs and I/O log follow it.
    fn step_inner(&mut self) -> (r: u32)
        requires
            old(self).wf(),
        ensures
            final(self).wf(),
            panel_controls_kept(old(self).panel@, final(self).panel@),
            machine_step(
                old(self).cpu,
                old(self).core_memory(),
                devices(old(self).bus@),
                final(self).cpu,
                final(self).core_memory(),
                devices(final(self).bus@),
            ),
            r == machine_step_cycles(old(self).cpu, old(self).core_memory()),
            final(self).cycles == old(self).cycles.wrapping_add(r as u64),
            final(self).bus@.ram[old(self).cpu.pc.wrapping_add(1) as int]
                == final(self).core_memory()[old(self).cpu.pc.wrapping_add(1) as int],
            final(self).bus@.ram[final(self).cpu.pc as int] == final(self).core_memory()[final(self).cpu.pc as int],
            final(self).panel@ == spec_finish_instruction(
                spec_clear_transient(old(self).panel@),
                final(self).bus@.ram,
                old(self).core_memory()[old(self).cpu.pc as int],
                old(self).cpu.pc,
                final(self).control_lines(),
                final(self).cycles,
                final(self).cpu.a,
            ),
    {
        self.panel.clear_transient_leds();
        let (pc_before, op, a, cycles) = self.execute_core();
        let control = self.control();
        self.panel.finish_instruction(&self.bus, op, pc_before, control, self.cycles, a);
        cycles
    }

    /// Load bus memory into the core before a run of traced steps.
    pub(crate) fn begin_batch(&mut self)
        requires
            old(self).wf(),
        ensures
            final(self).wf(),
            final(self).core_memory() == old(self).bus@.ram,
            final(self).cpu == old(self).cpu,
            final(self).bus == old(self).bus,
            final(self).panel == old(self).panel,
            final(self).cycles == old(self).cycles,
    {
        self.sync_in();
    }

    /// Copy the core's memory back to the bus after a run of traced steps.
    pub(crate) fn end_batch(&mut self)
        requires
            old(self).wf(),
        ensures
            final(self).wf(),
            final(self).bus@ == (BusView { ram: old(self).core_memory(), ..old(self).bus@ }),
            final(self).cpu == old(self).cpu,
            final(self).core == old(self).core,
            final(self).panel == old(self).panel,
            final(self).cycles == old(self).cycles,
    {
        self.sync_out();
    }

    /// One instruction as `step` runs it (memory already in the core), with
    /// what a trace shows of it: the registers before and after, the opcode
    /// and the three bytes after it as they were, and the two bytes after the
    /// opcode as they are afterwards.
    pub(crate) fn traced_step(&mut self) -> (r: StepRecord)
        requires
            old(self).wf(),
        ensures
            final(self).wf(),
            panel_controls_kept(old(self).panel@, final(self).panel@),
            record_shows(r, old(self).core_memory(), devices(old(self).bus@), final(self).core_memory(), devices(final(self).bus@)),
            r.before == old(self).cpu,
            r.after == final(self).cpu,
    {
        let before = self.cpu;
        let pc = before.pc;
        let op = core_read_byte(&self.core.cpu, pc);
        let b1 = core_read_byte(&self.core.cpu, pc.wrapping_add(1));
        let b2 = core_read_byte(&self.core.cpu, pc.wrapping_add(2));
        let b3 = core_read_byte(&self.core.cpu, pc.wrapping_add(3));
        self.step_inner();
        let after = self.cpu;
        let post1 = core_read_byte(&self.core.cpu, pc.wrapping_add(1));
        let post2 = core_read_byte(&self.core.cpu, pc.wrapping_add(2));
        StepRecord { before, op, b1, b2, b3, after, post1, post2 }
    }

    /// Execute one CPU instruction. Call only when panel is in RUN mode.
    /// Memory goes to the core and back; the CPU and memory then follow one
    /// machine step, and the panel shows it as
    /// `FrontPanel::finish_instruction` does.
    pub fn step(&mut self) -> (r: u32)
        requires
            old(self).wf(),
        ensures
            final(self).wf(),
            panel_controls_kept(old(self).panel@, final(self).panel@),
            machine_step(
                old(self).cpu,
                old(self).bus@.ram,
                devices(old(self).bus@),
                final(self).cpu,
                final(self).bus@.ram,
                devices(final(self).bus@),
            ),
            r == machine_step_cycles(old(self).cpu, old(self).bus@.ram),
            final(self).cycles == old(self).cycles.wrapping_add(r as u64),
            final(self).panel@ == spec_finish_instruction(
                spec_clear_transient(old(self).panel@),
                final(self).bus@.ram,
                old(self).bus@.ram[old(self).cpu.pc as int],
                old(self).cpu.pc,
                final(self).control_lines(),
                final(self).cycles,
                final(self).cpu.a,
            ),
    {
        self.sync_in();
        let c = self.step_inner();
        let ghost ram = self.bus@.ram;
        self.sync_out();
        proof {
            self.bus.lemma_ram_len();
            let pc1 = old(self).cpu.pc.wrapping_add(1) as int;
            assert((old(self).cpu.pc as int + 1) % 65536 == pc1);
            assert(self.bus@.ram[pc1] == ram[pc1]);
            assert(self.bus@.ram[self.cpu.pc as int] == ram[self.cpu.pc as int]);
        }
        c
    }

    /// The terminal's batch: up to `max_instructions` (at least one when it
    /// is 0), whatever the panel shows, each followed by a poll of the
    /// console keyboard; stops after the instruction that halts the CPU.
    /// Returns how many ran; the CPU and memory afterwards are that many
    /// machine steps on from where they were.
    pub fn run_terminal_batch(&mut self, max_instructions: u64) -> (r: u64)
        requires
            old(self).wf(),
        ensures
            final(self).wf(),
            1 <= r,
            r <= max_instructions || (max_instructions == 0 && r == 1),
            r < max_instructions ==> final(self).cpu.halt,
            exists|regs: Seq<CoreRegisters>, mems: Seq<Seq<u8>>, buses: Seq<BusView>|
                #[trigger] terminal_run(regs, mems, buses) && regs.len() == r + 1 && regs[0] == old(self).cpu
                    && mems[0] == old(self).bus@.ram && buses[0] == devices(old(self).bus@)
                    && regs.last() == final(self).cpu && mems.last() == final(self).bus@.ram
                    && buses.last() == devices(final(self).bus@),
    {
        let mut count: u64 = 0;
        self.sync_in();
        let ghost mut regs: Seq<CoreRegisters> = seq![self.cpu];
        let ghost mut mems: Seq<Seq<u8>> = seq![self.core_memory()];
        let ghost mut buses: Seq<BusView> = seq![devices(self.bus@)];
        loop
            invariant_except_break
                count < max_instructions || (max_instructions == 0 && count == 0),
            invariant
                self.wf(),
                terminal_run(regs, mems, buses),
                regs.len() == count + 1,
                regs[0] == old(self).cpu,
                mems[0] == old(self).bus@.ram,
                buses[0] == devices(old(self).bus@),
                regs.last() == self.cpu,
                mems.last() == self.core_memory(),
                buses.last() == devices(self.bus@),
            ensures
                1 <= count,
                count <= max_instructions || (max_instructions == 0 && count == 1),
                count < max_instructions ==> self.cpu.halt,
            decreases (if max_instructions == 0 { 1 } else { max_instructions as int }) - count,
        {
            let ghost (r0, m0, b0) = (regs, mems, buses);
            self.step_inner();
            let ghost mid = devices(self.bus@);
            count += 1;
            self.bus.serial().poll_rx();
            proof {
                regs = regs.push(self.cpu);
                mems = mems.push(self.core_memory());
                buses = buses.push(devices(self.bus@));
                assert(regs.drop_last() =~= r0);
                assert(mems.drop_last() =~= m0);
                assert(buses.drop_last() =~= b0);
                assert(buses.last() == polled(mid));
                assert(machine_step(regs[count - 1], mems[count - 1], buses[count - 1], regs[count as int], mems[count as int], mid));
            }
            if self.cpu.halt || count >= max_instructions {
                break;
            }
        }
        self.sync_out();
        count
    }

    /// Run up to `max_instructions`. Stops if the panel is STOPPED or the
    /// CPU halts; returns how many ran, and the CPU and memory afterwards are
    /// that many machine steps on from where they were. When none ran, the
    /// machine is as it was.
    pub fn run_batch(&mut self, max_instructions: u64) -> (r: u64)
        requires
            old(self).wf(),
        ensures
            final(self).wf(),
            panel_controls_kept(old(self).panel@, final(self).panel@),
            r <= max_instructions,
            (r == 0) <==> (max_instructions == 0 || old(self).panel@.run_state == RunState::Stopped
                || old(self).cpu.halt),
            0 < r < max_instructions ==> final(self).cpu.halt,
            r == 0 ==> final(self).cpu == old(self).cpu && final(self).bus@ == old(self).bus@
                && final(self).panel == old(self).panel && final(self).cycles == old(self).cycles,
            exists|regs: Seq<CoreRegisters>, mems: Seq<Seq<u8>>, buses: Seq<BusView>|
                #[trigger] machine_run(regs, mems, buses) && regs.len() == r + 1 && regs[0] == old(self).cpu
                    && mems[0] == old(self).bus@.ram && buses[0] == devices(old(self).bus@)
                    && regs.last() == final(self).cpu && mems.last() == final(self).bus@.ram
                    && buses.last() == devices(final(self).bus@),
    {
        let mut count: u64 = 0;
        self.sync_in();
        let ghost mut regs: Seq<CoreRegisters> = seq![self.cpu];
        let ghost mut mems: Seq<Seq<u8>> = seq![self.core_memory()];
        let ghost mut buses: Seq<BusView> = seq![devices(self.bus@)];
        loop
            invariant
                count <= max_instructions,
                self.wf(),
                panel_controls_kept(old(self).panel@, self.panel@),
                old(self).panel@.run_state == RunState::Stopped ==> count == 0,
                count > 0 ==> !old(self).cpu.halt,
                count == 0 ==> self.cpu == old(self).cpu && self.bus == old(self).bus
                    && self.core_memory() == old(self).bus@.ram && self.panel == old(self).panel
                    && self.cycles == old(self).cycles,
                machine_run(regs, mems, buses),
                regs.len() == count + 1,
                regs[0] == old(self).cpu,
                mems[0] == old(self).bus@.ram,
                buses[0] == devices(old(self).bus@),
                regs.last() == self.cpu,
                mems.last() == self.core_memory(),
                buses.last() == devices(self.bus@),
            ensures
                (count == 0) <==> (max_instructions == 0 || old(self).panel@.run_state == RunState::Stopped
                    || old(self).cpu.halt),
                0 < count < max_instructions ==> self.cpu.halt,
            decreases max_instructions - count,
        {
            if count >= max_instructions || self.panel.is_stopped() || self.cpu.halt {
                break;
            }
            let ghost (r0, m0, b0) = (regs, mems, buses);
            self.step_inner();
            proof {
                regs = regs.push(self.cpu);
                mems = mems.push(self.core_memory());
                buses = buses.push(devices(self.bus@));
                assert(regs.drop_last() =~= r0);
                assert(mems.drop_last() =~= m0);
                assert(buses.drop_last() =~= b0);
            }
            count += 1;
        }
        self.sync_out();
        count
    }

    /// Process pending front panel switches against the CPU's PC and halt
    /// line; the new PC and halt state go back to the CPU. Returns whether
    /// the machine should run.
    pub fn process_panel(&mut self) -> (r: bool)
        requires
            old(self).wf(),
        ensures
            final(self).wf(),
            final(self).cycles == old(self).cycles,
            panel_processed(old(self).panel@, old(self).bus@, old(self).control_lines(), final(self).panel@, final(self).bus@, r),
            ({
                let s = spec_actions(action_start(old(self).panel@, old(self).bus@.ram, old(self).control_lines()), old(self).panel@.pending);
                final(self).cpu == (CoreRegisters { pc: s.pc, halt: s.halted, ..old(self).cpu })
            }),
    {
        let mut c = self.control();
        let r = self.panel.process_actions(&mut self.bus, &mut c);
        self.cpu.pc = c.pc;
        self.cpu.halt = c.halted;
        r
    }

    /// SINGLE STEP: one instruction, then the panel shows the new PC, the
    /// byte there and the halt state, and logs the step.
    pub fn single_step(&mut self)
        requires
            old(self).wf(),
        ensures
            final(self).wf(),
            machine_step(
                old(self).cpu,
                old(self).bus@.ram,
                devices(old(self).bus@),
                final(self).cpu,
                final(self).bus@.ram,
                devices(final(self).bus@),
            ),
            final(self).cycles == old(self).cycles.wrapping_add(
                machine_step_cycles(old(self).cpu, old(self).bus@.ram) as u64,
            ),
            final(self).panel@ == spec_finish_single_step(
                old(self).panel@,
                final(self).bus@.ram,
                old(self).cpu.pc,
                final(self).control_lines(),
                final(self).cycles,
            ),
    {
        self.sync_in();
        let (pc_before, _op, _a, _cycles) = self.execute_core();
        self.sync_out();
        let control = self.control();
        self.panel.finish_single_step(&self.bus, pc_before, control, self.cycles);
    }
}

impl Default for Imsai8080 {
    fn default() -> (r: Self)
        ensures
            r.wf(),
            r.panel@ == spec_power_on_panel(),
            r.cycles == 0,
    {
        Self::new()
    }
}

} // verus!
