//! IMSAI 8080 front panel: address/data toggle switches, function switches and LEDs.
use vstd::prelude::*;
use std::collections::VecDeque;
use crate::bus::{ImsaiBus, BusView};

verus! {

/// Front panel function switches.
#[derive(Debug, Clone, Copy, PartialEq, Eq, Structural)]
pub enum PanelSwitch {
    /// Toggle between RUN and STOP
    RunStop,
    /// Execute one instruction (M1 cycle), then stop
    SingleStep,
    /// Read byte at address switch position into data LEDs
    Examine,
    /// Write data switches into memory at address switch position
    Deposit,
    /// Increment address, then examine
    ExamineNext,
    /// Increment address, then deposit
    DepositNext,
}

/// CPU run state controlled by the front panel.
#[derive(Debug, Clone, Copy, PartialEq, Eq, Structural)]
pub enum RunState {
    /// CPU halted, front panel drives address/data bus
    Stopped,
    /// CPU executing, front panel monitors bus
    Running,
}

/// Front panel status LEDs.
#[derive(Debug, Clone)]
pub struct PanelLeds {
    /// 16 address LEDs (true = ON, MSB first)
    pub address: [bool; 16],
    /// 8 data LEDs (true = ON, MSB first)
    pub data: [bool; 8],
    /// CPU is running (RUN LED)
    pub run: bool,
    /// Machine cycle 1: instruction fetch (M1 LED)
    pub m1: bool,
    /// Halt acknowledge: CPU executed HLT (HLTA status LED)
    pub hlta: bool,
    /// CPU in wait state (WAIT LED)
    pub wait: bool,
    /// Interrupt acknowledge (INT LED)
    pub int: bool,
    /// Hold acknowledge, DMA in progress (HLDA LED)
    pub hlda: bool,
    /// Power on (POWER LED)
    pub power: bool,
    /// Memory read active (MEMR LED)
    pub memr: bool,
    /// Memory write active (MWRT LED)
    pub mwrt: bool,
    /// I/O read active
    pub ior: bool,
    /// I/O write active
    pub iow: bool,
}

/// Abstract LED state.
pub struct LedView {
    pub address: Seq<bool>,
    pub data: Seq<bool>,
    pub run: bool,
    pub m1: bool,
    pub hlta: bool,
    pub wait: bool,
    pub int: bool,
    pub hlda: bool,
    pub power: bool,
    pub memr: bool,
    pub mwrt: bool,
    pub ior: bool,
    pub iow: bool,
}

impl View for PanelLeds {
    type V = LedView;

    open spec fn view(&self) -> LedView {
        LedView {
            address: self.address@,
            data: self.data@,
            run: self.run,
            m1: self.m1,
            hlta: self.hlta,
            wait: self.wait,
            int: self.int,
            hlda: self.hlda,
            power: self.power,
            memr: self.memr,
            mwrt: self.mwrt,
            ior: self.ior,
            iow: self.iow,
        }
    }
}

/// All LEDs off.
pub open spec fn leds_off() -> LedView {
    LedView {
        address: Seq::new(16, |i: int| false),
        data: Seq::new(8, |i: int| false),
        run: false,
        m1: false,
        hlta: false,
        wait: false,
        int: false,
        hlda: false,
        power: false,
        memr: false,
        mwrt: false,
        ior: false,
        iow: false,
    }
}

impl Default for PanelLeds {
    fn default() -> (r: Self)
        ensures
            r@ == leds_off(),
    {
        let r = PanelLeds {
            address: [false; 16],
            data: [false; 8],
            run: false,
            m1: false,
            hlta: false,
            wait: false,
            int: false,
            hlda: false,
            power: false,
            memr: false,
            mwrt: false,
            ior: false,
            iow: false,
        };
        assert(r@.address =~= Seq::new(16, |i: int| false));
        assert(r@.data =~= Seq::new(8, |i: int| false));
        r
    }
}

/// I/O event logged by the bus-monitoring front panel.
#[derive(Debug, Clone, Copy)]
pub struct IoEvent {
    /// Cycle count when this event happened
    pub cycle: u64,
    /// Address bus value
    pub address: u16,
    /// Data bus value (what was read or written)
    pub data: u8,
    /// Whether this was an I/O operation (vs memory)
    pub is_io: bool,
    /// Whether this was a write (vs read)
    pub is_write: bool,
    /// Whether this was an output to a port (OUT instruction)
    pub is_output: bool,
}

/// The CPU lines the front panel drives: program counter and halt state.
#[derive(Debug, Clone, Copy, PartialEq, Eq, Structural)]
pub struct CpuControl {
    pub pc: u16,
    pub halted: bool,
}

/// LED `i` (MSB first) of a 16-bit value.
pub open spec fn bit16(v: u16, i: int) -> bool {
    v & (1u16 << ((15 - i) as u16)) != 0
}

/// LED `i` (MSB first) of an 8-bit value.
pub open spec fn bit8(v: u8, i: int) -> bool {
    v & (1u8 << ((7 - i) as u8)) != 0
}

/// The 16 address LEDs showing `v`, MSB first.
pub open spec fn bits16(v: u16) -> Seq<bool> {
    Seq::new(16, |i: int| bit16(v, i))
}

/// The 8 data LEDs showing `v`, MSB first.
pub open spec fn bits8(v: u8) -> Seq<bool> {
    Seq::new(8, |i: int| bit8(v, i))
}

/// Abstract front panel state.
pub struct PanelView {
    pub address_switches: u16,
    pub data_switches: u8,
    pub leds: LedView,
    pub run_state: RunState,
    pub pending: Seq<PanelSwitch>,
    pub io_log: Seq<IoEvent>,
    pub io_log_capacity: nat,
    pub cycle_count: u64,
    pub last_address: u16,
    pub last_data: u8,
}

/// What a function switch acts on: the panel, memory, and the CPU's PC and halt line.
pub struct ActionState {
    pub panel: PanelView,
    pub ram: Seq<u8>,
    pub pc: u16,
    pub halted: bool,
    pub should_run: bool,
}

/// EXAMINE: the address switches go on the address bus, MEMR is asserted
/// and the data LEDs latch the addressed byte.
pub open spec fn spec_examine(s: ActionState) -> ActionState {
    let addr = s.panel.address_switches;
    ActionState {
        panel: PanelView {
            leds: LedView {
                address: bits16(addr),
                data: bits8(s.ram[addr as int]),
                memr: true,
                mwrt: false,
                ..s.panel.leds
            },
            ..s.panel
        },
        ..s
    }
}

/// DEPOSIT: the data switches are written at the address switches and MWRT is asserted.
pub open spec fn spec_deposit(s: ActionState) -> ActionState {
    let addr = s.panel.address_switches;
    let data = s.panel.data_switches;
    ActionState {
        ram: s.ram.update(addr as int, data),
        panel: PanelView {
            leds: LedView {
                address: bits16(addr),
                data: bits8(data),
                mwrt: true,
                memr: false,
                ..s.panel.leds
            },
            ..s.panel
        },
        ..s
    }
}

/// The address switches advanced by one (wrapping at 0xFFFF), shown on the address LEDs.
pub open spec fn spec_advance(s: ActionState) -> ActionState {
    let addr = ((s.panel.address_switches as int + 1) % 65536) as u16;
    ActionState {
        panel: PanelView {
            address_switches: addr,
            leds: LedView { address: bits16(addr), ..s.panel.leds },
            ..s.panel
        },
        ..s
    }
}

/// Effect of one function switch.
pub open spec fn spec_action(s: ActionState, a: PanelSwitch) -> ActionState {
    match a {
        PanelSwitch::RunStop => if s.panel.run_state == RunState::Stopped {
            ActionState {
                panel: PanelView {
                    run_state: RunState::Running,
                    leds: LedView { wait: false, hlta: false, ..s.panel.leds },
                    ..s.panel
                },
                should_run: true,
                pc: s.panel.address_switches,
                halted: false,
                ..s
            }
        } else {
            ActionState {
                panel: PanelView {
                    run_state: RunState::Stopped,
                    leds: LedView { wait: true, ..s.panel.leds },
                    ..s.panel
                },
                should_run: false,
                ..s
            }
        },
        PanelSwitch::SingleStep => ActionState {
            panel: PanelView {
                run_state: RunState::Stopped,
                leds: LedView { wait: true, ..s.panel.leds },
                ..s.panel
            },
            should_run: false,
            ..s
        },
        PanelSwitch::Examine => spec_examine(ActionState { pc: s.panel.address_switches, ..s }),
        PanelSwitch::Deposit => spec_deposit(s),
        PanelSwitch::ExamineNext => {
            let s1 = spec_advance(s);
            spec_examine(ActionState { pc: s1.panel.address_switches, ..s1 })
        },
        PanelSwitch::DepositNext => spec_deposit(spec_advance(s)),
    }
}

/// Effect of a sequence of function switches, in order.
pub open spec fn spec_actions(s: ActionState, actions: Seq<PanelSwitch>) -> ActionState
    decreases actions.len(),
{
    if actions.len() == 0 {
        s
    } else {
        spec_action(spec_actions(s, actions.drop_last()), actions.last())
    }
}

/// State in which `process_actions` starts.
pub open spec fn action_start(p: PanelView, ram: Seq<u8>, cpu: CpuControl) -> ActionState {
    ActionState {
        panel: PanelView { pending: Seq::empty(), ..p },
        ram,
        pc: cpu.pc,
        halted: cpu.halted,
        should_run: p.run_state == RunState::Running,
    }
}

/// The panel after all pending switches were processed: RUN LED follows the
/// run state and POWER is lit.
pub open spec fn spec_processed_panel(s: ActionState) -> PanelView {
    PanelView {
        leds: LedView {
            run: s.panel.run_state == RunState::Running,
            power: true,
            ..s.panel.leds
        },
        ..s.panel
    }
}

/// Power-on panel: STOPPED, switches at 0, POWER and WAIT lit.
pub open spec fn spec_power_on_panel() -> PanelView {
    PanelView {
        address_switches: 0,
        data_switches: 0,
        leds: LedView { power: true, wait: true, ..leds_off() },
        run_state: RunState::Stopped,
        pending: Seq::empty(),
        io_log: Seq::empty(),
        io_log_capacity: 256,
        cycle_count: 0,
        last_address: 0,
        last_data: 0,
    }
}

/// Log with `e` appended, dropping the oldest event when the log is full.
pub open spec fn log_push(log: Seq<IoEvent>, capacity: nat, e: IoEvent) -> Seq<IoEvent> {
    if log.len() >= capacity && log.len() > 0 {
        log.drop_first().push(e)
    } else {
        log.push(e)
    }
}

/// IMSAI 8080 front panel.
pub struct FrontPanel {
    address_switches: u16,
    data_switches: u8,
    leds: PanelLeds,
    run_state: RunState,
    pending_actions: Vec<PanelSwitch>,
    io_log: VecDeque<IoEvent>,
    io_log_capacity: usize,
    cycle_count: u64,
    last_address: u16,
    last_data: u8,
}

impl View for FrontPanel {
    type V = PanelView;

    closed spec fn view(&self) -> PanelView {
        PanelView {
            address_switches: self.address_switches,
            data_switches: self.data_switches,
            leds: self.leds@,
            run_state: self.run_state,
            pending: self.pending_actions@,
            io_log: self.io_log@,
            io_log_capacity: self.io_log_capacity as nat,
            cycle_count: self.cycle_count,
            last_address: self.last_address,
            last_data: self.last_data,
        }
    }
}

/// The event log holds 256 events at most.
pub open spec fn panel_view_wf(p: PanelView) -> bool {
    p.io_log_capacity == 256 && p.io_log.len() <= p.io_log_capacity
}

impl FrontPanel {
    /// The event log never holds more than its capacity.
    pub open spec fn wf(&self) -> bool {
        panel_view_wf(self@)
    }

    /// Create a new front panel in power-on state (STOPPED, switches at 0).
    pub fn new() -> (r: Self)
        ensures
            r.wf(),
            r@ == spec_power_on_panel(),
    {
        let mut leds = PanelLeds::default();
        leds.power = true;
        leds.wait = true;  // CPU is in WAIT state on power-on
        let r = Self {
            address_switches: 0,
            data_switches: 0,
            leds,
            run_state: RunState::Stopped,
            pending_actions: Vec::new(),
            io_log: VecDeque::new(),
            io_log_capacity: 256,
            cycle_count: 0,
            last_address: 0,
            last_data: 0,
        };
        assert(r@.leds == (LedView { power: true, wait: true, ..leds_off() }));
        r
    }
}

proof fn lemma_or_bit16(x: u16, a: u16, b: u16)
    by (bit_vector)
    requires
        a < 16,
        b < 16,
    ensures
        ((x | (1u16 << a)) & (1u16 << b) != 0) <==> (a == b || x & (1u16 << b) != 0),
        0u16 & (1u16 << b) == 0,
{
}

proof fn lemma_or_bit8(x: u8, a: u8, b: u8)
    by (bit_vector)
    requires
        a < 8,
        b < 8,
    ensures
        ((x | (1u8 << a)) & (1u8 << b) != 0) <==> (a == b || x & (1u8 << b) != 0),
        0u8 & (1u8 << b) == 0,
{
}

proof fn lemma_bits_determine16(r: u16, v: u16)
    by (bit_vector)
    requires
        (r & 0x8000 != 0) == (v & 0x8000 != 0),
        (r & 0x4000 != 0) == (v & 0x4000 != 0),
        (r & 0x2000 != 0) == (v & 0x2000 != 0),
        (r & 0x1000 != 0) == (v & 0x1000 != 0),
        (r & 0x0800 != 0) == (v & 0x0800 != 0),
        (r & 0x0400 != 0) == (v & 0x0400 != 0),
        (r & 0x0200 != 0) == (v & 0x0200 != 0),
        (r & 0x0100 != 0) == (v & 0x0100 != 0),
        (r & 0x0080 != 0) == (v & 0x0080 != 0),
        (r & 0x0040 != 0) == (v & 0x0040 != 0),
        (r & 0x0020 != 0) == (v & 0x0020 != 0),
        (r & 0x0010 != 0) == (v & 0x0010 != 0),
        (r & 0x0008 != 0) == (v & 0x0008 != 0),
        (r & 0x0004 != 0) == (v & 0x0004 != 0),
        (r & 0x0002 != 0) == (v & 0x0002 != 0),
        (r & 0x0001 != 0) == (v & 0x0001 != 0),
    ensures
        r == v,
{
}

proof fn lemma_bits_determine8(r: u8, v: u8)
    by (bit_vector)
    requires
        (r & 0x80 != 0) == (v & 0x80 != 0),
        (r & 0x40 != 0) == (v & 0x40 != 0),
        (r & 0x20 != 0) == (v & 0x20 != 0),
        (r & 0x10 != 0) == (v & 0x10 != 0),
        (r & 0x08 != 0) == (v & 0x08 != 0),
        (r & 0x04 != 0) == (v & 0x04 != 0),
        (r & 0x02 != 0) == (v & 0x02 != 0),
        (r & 0x01 != 0) == (v & 0x01 != 0),
    ensures
        r == v,
{
}

proof fn lemma_shift_values()
    ensures
        1u16 << 15u16 == 0x8000, 1u16 << 14u16 == 0x4000, 1u16 << 13u16 == 0x2000,
        1u16 << 12u16 == 0x1000, 1u16 << 11u16 == 0x0800, 1u16 << 10u16 == 0x0400,
        1u16 << 9u16 == 0x0200, 1u16 << 8u16 == 0x0100, 1u16 << 7u16 == 0x0080,
        1u16 << 6u16 == 0x0040, 1u16 << 5u16 == 0x0020, 1u16 << 4u16 == 0x0010,
        1u16 << 3u16 == 0x0008, 1u16 << 2u16 == 0x0004, 1u16 << 1u16 == 0x0002,
        1u16 << 0u16 == 0x0001,
        1u8 << 7u8 == 0x80, 1u8 << 6u8 == 0x40, 1u8 << 5u8 == 0x20, 1u8 << 4u8 == 0x10,
        1u8 << 3u8 == 0x08, 1u8 << 2u8 == 0x04, 1u8 << 1u8 == 0x02, 1u8 << 0u8 == 0x01,
{
    assert(1u16 << 15u16 == 0x8000 &&
        1u16 << 14u16 == 0x4000 &&
        1u16 << 13u16 == 0x2000 &&
        1u16 << 12u16 == 0x1000 &&
        1u16 << 11u16 == 0x0800 &&
        1u16 << 10u16 == 0x0400 &&
        1u16 << 9u16 == 0x0200 &&
        1u16 << 8u16 == 0x0100 &&
        1u16 << 7u16 == 0x0080 &&
        1u16 << 6u16 == 0x0040 &&
        1u16 << 5u16 == 0x0020 &&
        1u16 << 4u16 == 0x0010 &&
        1u16 << 3u16 == 0x0008 &&
        1u16 << 2u16 == 0x0004 &&
        1u16 << 1u16 == 0x0002 &&
        1u16 << 0u16 == 0x0001 &&
        1u8 << 7u8 == 0x80 &&
        1u8 << 6u8 == 0x40 &&
        1u8 << 5u8 == 0x20 &&
        1u8 << 4u8 == 0x10 &&
        1u8 << 3u8 == 0x08 &&
        1u8 << 2u8 == 0x04 &&
        1u8 << 1u8 == 0x02 &&
        1u8 << 0u8 == 0x01) by (bit_vector);
}

/// Two 16-bit values with the same LED pattern are equal.
pub proof fn lemma_bits16_injective(r: u16, v: u16)
    requires
        forall|j: int| 0 <= j < 16 ==> bit16(r, j) == bit16(v, j),
    ensures
        r == v,
{
    lemma_shift_values();
    assert(bit16(r, 0) == bit16(v, 0));
    assert(bit16(r, 1) == bit16(v, 1));
    assert(bit16(r, 2) == bit16(v, 2));
    assert(bit16(r, 3) == bit16(v, 3));
    assert(bit16(r, 4) == bit16(v, 4));
    assert(bit16(r, 5) == bit16(v, 5));
    assert(bit16(r, 6) == bit16(v, 6));
    assert(bit16(r, 7) == bit16(v, 7));
    assert(bit16(r, 8) == bit16(v, 8));
    assert(bit16(r, 9) == bit16(v, 9));
    assert(bit16(r, 10) == bit16(v, 10));
    assert(bit16(r, 11) == bit16(v, 11));
    assert(bit16(r, 12) == bit16(v, 12));
    assert(bit16(r, 13) == bit16(v, 13));
    assert(bit16(r, 14) == bit16(v, 14));
    assert(bit16(r, 15) == bit16(v, 15));
    lemma_bits_determine16(r, v);
}

/// Two 8-bit values with the same LED pattern are equal.
pub proof fn lemma_bits8_injective(r: u8, v: u8)
    requires
        forall|j: int| 0 <= j < 8 ==> bit8(r, j) == bit8(v, j),
    ensures
        r == v,
{
    lemma_shift_values();
    assert(bit8(r, 0) == bit8(v, 0));
    assert(bit8(r, 1) == bit8(v, 1));
    assert(bit8(r, 2) == bit8(v, 2));
    assert(bit8(r, 3) == bit8(v, 3));
    assert(bit8(r, 4) == bit8(v, 4));
    assert(bit8(r, 5) == bit8(v, 5));
    assert(bit8(r, 6) == bit8(v, 6));
    assert(bit8(r, 7) == bit8(v, 7));
    lemma_bits_determine8(r, v);
}

/// LED pattern of a 16-bit value, MSB first.
pub fn u16_to_bool_array(val: u16) -> (r: [bool; 16])
    ensures
        r@ == bits16(val),
{
    let mut arr = [false; 16];
    let mut i: usize = 0;
    while i < 16
        invariant
            i <= 16,
            arr@.len() == 16,
            forall|j: int| 0 <= j < i ==> arr@[j] == bit16(val, j),
        decreases 16 - i,
    {
        arr[i] = val & (1u16 << ((15 - i) as u16)) != 0;
        i = i + 1;
    }
    assert(arr@ =~= bits16(val));
    arr
}

/// LED pattern of an 8-bit value, MSB first.
pub fn u8_to_bool_array(val: u8) -> (r: [bool; 8])
    ensures
        r@ == bits8(val),
{
    let mut arr = [false; 8];
    let mut i: usize = 0;
    while i < 8
        invariant
            i <= 8,
            arr@.len() == 8,
            forall|j: int| 0 <= j < i ==> arr@[j] == bit8(val, j),
        decreases 8 - i,
    {
        arr[i] = val & (1u8 << ((7 - i) as u8)) != 0;
        i = i + 1;
    }
    assert(arr@ =~= bits8(val));
    arr
}

/// Value shown by 16 LEDs, MSB first.
pub fn bool_array_to_u16(arr: [bool; 16]) -> (r: u16)
    ensures
        bits16(r) == arr@,
{
    let mut val: u16 = 0;
    let mut i: usize = 0;
    assert forall|j: int| 0 <= j < 16 implies !bit16(val, j) by {
        lemma_or_bit16(0, 0, (15 - j) as u16);
    }
    while i < 16
        invariant
            i <= 16,
            arr@.len() == 16,
            forall|j: int| 0 <= j < i ==> bit16(val, j) == arr@[j],
            forall|j: int| i <= j < 16 ==> !bit16(val, j),
        decreases 16 - i,
    {
        if arr[i] {
            let ghost old_val = val;
            val = val | (1u16 << ((15 - i) as u16));
            assert forall|j: int| 0 <= j < 16 implies bit16(val, j) == (j == i || bit16(old_val, j)) by {
                lemma_or_bit16(old_val, (15 - i) as u16, (15 - j) as u16);
            }
        }
        i = i + 1;
    }
    assert(bits16(val) =~= arr@);
    val
}

/// Value shown by 8 LEDs, MSB first.
pub fn bool_array_to_u8(arr: [bool; 8]) -> (r: u8)
    ensures
        bits8(r) == arr@,
{
    let mut val: u8 = 0;
    let mut i: usize = 0;
    assert forall|j: int| 0 <= j < 8 implies !bit8(val, j) by {
        lemma_or_bit8(0, 0, (7 - j) as u8);
    }
    while i < 8
        invariant
            i <= 8,
            arr@.len() == 8,
            forall|j: int| 0 <= j < i ==> bit8(val, j) == arr@[j],
            forall|j: int| i <= j < 8 ==> !bit8(val, j),
        decreases 8 - i,
    {
        if arr[i] {
            let ghost old_val = val;
            val = val | (1u8 << ((7 - i) as u8));
            assert forall|j: int| 0 <= j < 8 implies bit8(val, j) == (j == i || bit8(old_val, j)) by {
                lemma_or_bit8(old_val, (7 - i) as u8, (7 - j) as u8);
            }
        }
        i = i + 1;
    }
    assert(bits8(val) =~= arr@);
    val
}

/// Reading back the LEDs that show a 16-bit value gives that value.
pub proof fn lemma_u16_led_roundtrip(v: u16, r: u16)
    requires
        bits16(r) == bits16(v),
    ensures
        r == v,
{
    assert forall|j: int| 0 <= j < 16 implies bit16(r, j) == bit16(v, j) by {
        assert(bits16(r)[j] == bits16(v)[j]);
        assert(bits16(r)[j] == bit16(r, j));
        assert(bits16(v)[j] == bit16(v, j));
    }
    lemma_bits16_injective(r, v);
}

/// Reading back the LEDs that show an 8-bit value gives that value.
pub proof fn lemma_u8_led_roundtrip(v: u8, r: u8)
    requires
        bits8(r) == bits8(v),
    ensures
        r == v,
{
    assert forall|j: int| 0 <= j < 8 implies bit8(r, j) == bit8(v, j) by {
        assert(bits8(r)[j] == bits8(v)[j]);
        assert(bits8(r)[j] == bit8(r, j));
        assert(bits8(v)[j] == bit8(v, j));
    }
    lemma_bits8_injective(r, v);
}

/// The panel after a logged I/O or memory bus event.
pub open spec fn spec_log_event(p: PanelView, cycle: u64, address: u16, value: u8) -> PanelView {
    PanelView { cycle_count: cycle, last_address: address, last_data: value, ..p }
}

/// The panel with its address switches set to `addr`; in STOP mode the
/// address LEDs follow them.
pub open spec fn spec_set_address(p: PanelView, addr: u16) -> PanelView {
    if p.run_state == RunState::Stopped {
        PanelView { address_switches: addr, leds: LedView { address: bits16(addr), ..p.leds }, ..p }
    } else {
        PanelView { address_switches: addr, ..p }
    }
}

impl FrontPanel {
    /// Set the 16 address toggle switches. In STOP mode the address LEDs follow them.
    pub fn set_address_switches(&mut self, addr: u16)
        requires
            old(self).wf(),
        ensures
            final(self).wf(),
            final(self)@ == spec_set_address(old(self)@, addr),
    {
        self.address_switches = addr;
        if self.run_state == RunState::Stopped {
            self.leds.address = u16_to_bool_array(addr);
        }
    }

    /// Set the 8 data toggle switches. The data LEDs show the data bus, not the switches.
    pub fn set_data_switches(&mut self, data: u8)
        requires
            old(self).wf(),
        ensures
            final(self).wf(),
            final(self)@ == (PanelView { data_switches: data, ..old(self)@ }),
    {
        self.data_switches = data;
    }

    pub fn address_switches(&self) -> (r: u16)
        ensures
            r == self@.address_switches,
    {
        self.address_switches
    }

    pub fn data_switches(&self) -> (r: u8)
        ensures
            r == self@.data_switches,
    {
        self.data_switches
    }

    /// Press a function switch. Queued and processed on next `process_actions()`.
    pub fn press_switch(&mut self, switch: PanelSwitch)
        requires
            old(self).wf(),
        ensures
            final(self).wf(),
            final(self)@ == (PanelView { pending: old(self)@.pending.push(switch), ..old(self)@ }),
    {
        self.pending_actions.push(switch);
    }

    pub fn leds(&self) -> (r: &PanelLeds)
        ensures
            r@ == self@.leds,
    {
        &self.leds
    }

    pub fn run_state(&self) -> (r: RunState)
        ensures
            r == self@.run_state,
    {
        self.run_state
    }

    pub fn is_running(&self) -> (r: bool)
        ensures
            r == (self@.run_state == RunState::Running),
    {
        self.run_state == RunState::Running
    }

    pub fn is_stopped(&self) -> (r: bool)
        ensures
            r == (self@.run_state == RunState::Stopped),
    {
        self.run_state == RunState::Stopped
    }

    /// Recent I/O events, oldest first.
    pub fn io_log(&self) -> (r: Vec<IoEvent>)
        ensures
            r@ == self@.io_log,
    {
        let mut out: Vec<IoEvent> = Vec::new();
        let mut i: usize = 0;
        while i < self.io_log.len()
            invariant
                i <= self.io_log@.len(),
                out@ == self.io_log@.subrange(0, i as int),
            decreases self.io_log@.len() - i,
        {
            out.push(self.io_log[i]);
            assert(out@ =~= self.io_log@.subrange(0, i + 1));
            i = i + 1;
        }
        assert(self.io_log@.subrange(0, self.io_log@.len() as int) =~= self.io_log@);
        out
    }

    /// Clear the I/O event log.
    pub fn clear_io_log(&mut self)
        requires
            old(self).wf(),
        ensures
            final(self).wf(),
            final(self)@ == (PanelView { io_log: Seq::empty(), ..old(self)@ }),
    {
        self.io_log.clear();
    }

    /// Cycle count of the last logged bus event.
    pub fn cycle_count(&self) -> (r: u64)
        ensures
            r == self@.cycle_count,
    {
        self.cycle_count
    }

    fn push_event(&mut self, e: IoEvent)
        requires
            old(self).wf(),
        ensures
            final(self).wf(),
            final(self)@ == (PanelView {
                io_log: log_push(old(self)@.io_log, old(self)@.io_log_capacity, e),
                ..old(self)@
            }),
    {
        if self.io_log.len() >= self.io_log_capacity {
            let _ = self.io_log.pop_front();
        }
        self.io_log.push_back(e);
    }

    /// Log an I/O read event (IN instruction): IOR lit, IOW dark.
    pub fn log_io_read(&mut self, cycle: u64, port: u8, value: u8)
        requires
            old(self).wf(),
        ensures
            final(self).wf(),
            final(self)@ == ({
                let p = spec_log_event(old(self)@, cycle, port as u16, value);
                PanelView {
                    leds: LedView { ior: true, iow: false, ..p.leds },
                    io_log: log_push(
                        p.io_log,
                        p.io_log_capacity,
                        IoEvent {
                            cycle,
                            address: port as u16,
                            data: value,
                            is_io: true,
                            is_write: false,
                            is_output: false,
                        },
                    ),
                    ..p
                }
            }),
    {
        self.cycle_count = cycle;
        self.last_address = port as u16;
        self.last_data = value;
        self.leds.ior = true;
        self.leds.iow = false;
        self.push_event(
            IoEvent {
                cycle,
                address: port as u16,
                data: value,
                is_io: true,
                is_write: false,
                is_output: false,
            },
        );
    }

    /// Log an I/O write event (OUT instruction): IOW lit, IOR and MWRT dark.
    pub fn log_io_write(&mut self, cycle: u64, port: u8, value: u8)
        requires
            old(self).wf(),
        ensures
            final(self).wf(),
            final(self)@ == ({
                let p = spec_log_event(old(self)@, cycle, port as u16, value);
                PanelView {
                    leds: LedView { iow: true, ior: false, mwrt: false, ..p.leds },
                    io_log: log_push(
                        p.io_log,
                        p.io_log_capacity,
                        IoEvent {
                            cycle,
                            address: port as u16,
                            data: value,
                            is_io: true,
                            is_write: true,
                            is_output: true,
                        },
                    ),
                    ..p
                }
            }),
    {
        self.cycle_count = cycle;
        self.last_address = port as u16;
        self.last_data = value;
        self.leds.iow = true;
        self.leds.ior = false;
        self.leds.mwrt = false;
        self.push_event(
            IoEvent {
                cycle,
                address: port as u16,
                data: value,
                is_io: true,
                is_write: true,
                is_output: true,
            },
        );
    }

    /// Log a memory read event: MEMR lit, MWRT dark.
    pub fn log_mem_read(&mut self, cycle: u64, addr: u16, value: u8)
        requires
            old(self).wf(),
        ensures
            final(self).wf(),
            final(self)@ == ({
                let p = spec_log_event(old(self)@, cycle, addr, value);
                PanelView { leds: LedView { memr: true, mwrt: false, ..p.leds }, ..p }
            }),
    {
        self.cycle_count = cycle;
        self.last_address = addr;
        self.last_data = value;
        self.leds.memr = true;
        self.leds.mwrt = false;
    }

    /// Log a memory write event: MWRT lit, MEMR dark.
    pub fn log_mem_write(&mut self, cycle: u64, addr: u16, value: u8)
        requires
            old(self).wf(),
        ensures
            final(self).wf(),
            final(self)@ == ({
                let p = spec_log_event(old(self)@, cycle, addr, value);
                PanelView { leds: LedView { mwrt: true, memr: false, ..p.leds }, ..p }
            }),
    {
        self.cycle_count = cycle;
        self.last_address = addr;
        self.last_data = value;
        self.leds.mwrt = true;
        self.leds.memr = false;
    }

    /// Update LEDs to reflect the bus during RUN mode, after a CPU step:
    /// address LEDs show the new PC, data LEDs the byte on the data bus.
    /// A halted CPU shows RUN dark and WAIT and HLTA lit; a running one
    /// shows RUN, M1 and MEMR lit.
    pub fn update_run_leds(&mut self, pc: u16, halted: bool, data_bus: u8)
        requires
            old(self).wf(),
        ensures
            final(self).wf(),
            final(self)@ == spec_run_leds(old(self)@, pc, halted, data_bus),
    {
        if self.run_state == RunState::Running {
            self.leds.address = u16_to_bool_array(pc);
            self.leds.data = u8_to_bool_array(data_bus);
            if halted {
                self.leds.run = false;
                self.leds.wait = true;
                self.leds.hlta = true;
                self.leds.m1 = false;
                self.leds.memr = false;
            } else {
                self.leds.run = true;
                self.leds.wait = false;
                self.leds.hlta = false;
                // Every instruction begins with an M1 (opcode fetch) memory read.
                self.leds.m1 = true;
                self.leds.memr = true;
            }
        }
    }

    /// Clear transient status LEDs (M1, IOR, IOW, MEMR, MWRT).
    pub fn clear_transient_leds(&mut self)
        requires
            old(self).wf(),
        ensures
            final(self).wf(),
            final(self)@ == spec_clear_transient(old(self)@),
    {
        self.leds.m1 = false;
        self.leds.ior = false;
        self.leds.iow = false;
        self.leds.memr = false;
        self.leds.mwrt = false;
    }

    fn examine(&mut self, bus: &ImsaiBus)
        ensures
            final(self)@ == spec_examine(
                ActionState { panel: old(self)@, ram: bus@.ram, pc: 0, halted: false, should_run: false },
            ).panel,
    {
        let addr = self.address_switches;
        let data = bus.mem_read(addr);
        self.leds.address = u16_to_bool_array(addr);
        self.leds.data = u8_to_bool_array(data);
        self.leds.memr = true;
        self.leds.mwrt = false;
    }

    fn deposit(&mut self, bus: &mut ImsaiBus)
        requires
            old(bus).wf(),
        ensures
            final(bus).wf(),
            final(self)@ == spec_deposit(
                ActionState { panel: old(self)@, ram: old(bus)@.ram, pc: 0, halted: false, should_run: false },
            ).panel,
            final(bus)@ == (BusView {
                ram: old(bus)@.ram.update(old(self)@.address_switches as int, old(self)@.data_switches),
                ..old(bus)@
            }),
    {
        let addr = self.address_switches;
        let data = self.data_switches;
        bus.mem_write(addr, data);
        self.leds.address = u16_to_bool_array(addr);
        self.leds.data = u8_to_bool_array(data);
        self.leds.mwrt = true;
        self.leds.memr = false;
    }
}

/// The panel's LEDs after a CPU step in RUN mode (no change when stopped).
pub open spec fn spec_run_leds(p: PanelView, pc: u16, halted: bool, data_bus: u8) -> PanelView {
    if p.run_state == RunState::Running {
        PanelView {
            leds: LedView {
                address: bits16(pc),
                data: bits8(data_bus),
                run: !halted,
                wait: halted,
                hlta: halted,
                m1: !halted,
                memr: !halted,
                ..p.leds
            },
            ..p
        }
    } else {
        p
    }
}

/// The state a function switch acts on, read off the panel, bus and CPU lines.
pub open spec fn action_state(p: PanelView, b: BusView, cpu: CpuControl, should_run: bool) -> ActionState {
    ActionState { panel: p, ram: b.ram, pc: cpu.pc, halted: cpu.halted, should_run }
}

impl FrontPanel {
    fn act_run_stop(&mut self, bus: &mut ImsaiBus, cpu: &mut CpuControl, should_run: &mut bool)
        requires
            old(self).wf(),
            old(bus).wf(),
        ensures
            final(self).wf(),
            final(bus).wf(),
            final(self)@.pending == old(self)@.pending,
            final(self)@.io_log_capacity == old(self)@.io_log_capacity,
            final(bus)@.serial == old(bus)@.serial,
            final(bus)@.tarbell == old(bus)@.tarbell,
            action_state(final(self)@, final(bus)@, *final(cpu), *final(should_run)) == spec_action(
                action_state(old(self)@, old(bus)@, *old(cpu), *old(should_run)),
                PanelSwitch::RunStop,
            ),
    {
        if self.run_state == RunState::Stopped {
            self.run_state = RunState::Running;
            *should_run = true;
            // Pressing RUN starts the CPU from the address switches
            // and releases it from any prior HLT.
            cpu.pc = self.address_switches;
            cpu.halted = false;
            self.leds.wait = false;
            self.leds.hlta = false;
        } else {
            self.run_state = RunState::Stopped;
            *should_run = false;
            self.leds.wait = true;
        }
    }

    fn act_single_step(&mut self, bus: &mut ImsaiBus, cpu: &mut CpuControl, should_run: &mut bool)
        requires
            old(self).wf(),
            old(bus).wf(),
        ensures
            final(self).wf(),
            final(bus).wf(),
            final(self)@.pending == old(self)@.pending,
            final(self)@.io_log_capacity == old(self)@.io_log_capacity,
            final(bus)@.serial == old(bus)@.serial,
            final(bus)@.tarbell == old(bus)@.tarbell,
            action_state(final(self)@, final(bus)@, *final(cpu), *final(should_run)) == spec_action(
                action_state(old(self)@, old(bus)@, *old(cpu), *old(should_run)),
                PanelSwitch::SingleStep,
            ),
    {
        // The caller performs the actual CPU step.
        *should_run = false;
        self.run_state = RunState::Stopped;
        self.leds.wait = true;
    }

    fn act_examine(&mut self, bus: &mut ImsaiBus, cpu: &mut CpuControl, should_run: &mut bool)
        requires
            old(self).wf(),
            old(bus).wf(),
        ensures
            final(self).wf(),
            final(bus).wf(),
            final(self)@.pending == old(self)@.pending,
            final(self)@.io_log_capacity == old(self)@.io_log_capacity,
            final(bus)@.serial == old(bus)@.serial,
            final(bus)@.tarbell == old(bus)@.tarbell,
            action_state(final(self)@, final(bus)@, *final(cpu), *final(should_run)) == spec_action(
                action_state(old(self)@, old(bus)@, *old(cpu), *old(should_run)),
                PanelSwitch::Examine,
            ),
    {
        // EXAMINE loads the address switches into the program counter.
        cpu.pc = self.address_switches;
        self.examine(bus);
    }

    fn act_deposit(&mut self, bus: &mut ImsaiBus, cpu: &mut CpuControl, should_run: &mut bool)
        requires
            old(self).wf(),
            old(bus).wf(),
        ensures
            final(self).wf(),
            final(bus).wf(),
            final(self)@.pending == old(self)@.pending,
            final(self)@.io_log_capacity == old(self)@.io_log_capacity,
            final(bus)@.serial == old(bus)@.serial,
            final(bus)@.tarbell == old(bus)@.tarbell,
            action_state(final(self)@, final(bus)@, *final(cpu), *final(should_run)) == spec_action(
                action_state(old(self)@, old(bus)@, *old(cpu), *old(should_run)),
                PanelSwitch::Deposit,
            ),
    {
        self.deposit(bus);
    }

    fn act_examine_next(&mut self, bus: &mut ImsaiBus, cpu: &mut CpuControl, should_run: &mut bool)
        requires
            old(self).wf(),
            old(bus).wf(),
        ensures
            final(self).wf(),
            final(bus).wf(),
            final(self)@.pending == old(self)@.pending,
            final(self)@.io_log_capacity == old(self)@.io_log_capacity,
            final(bus)@.serial == old(bus)@.serial,
            final(bus)@.tarbell == old(bus)@.tarbell,
            action_state(final(self)@, final(bus)@, *final(cpu), *final(should_run)) == spec_action(
                action_state(old(self)@, old(bus)@, *old(cpu), *old(should_run)),
                PanelSwitch::ExamineNext,
            ),
    {
        self.address_switches = self.address_switches.wrapping_add(1);
        cpu.pc = self.address_switches;
        self.leds.address = u16_to_bool_array(self.address_switches);
        self.examine(bus);
    }

    fn act_deposit_next(&mut self, bus: &mut ImsaiBus, cpu: &mut CpuControl, should_run: &mut bool)
        requires
            old(self).wf(),
            old(bus).wf(),
        ensures
            final(self).wf(),
            final(bus).wf(),
            final(self)@.pending == old(self)@.pending,
            final(self)@.io_log_capacity == old(self)@.io_log_capacity,
            final(bus)@.serial == old(bus)@.serial,
            final(bus)@.tarbell == old(bus)@.tarbell,
            action_state(final(self)@, final(bus)@, *final(cpu), *final(should_run)) == spec_action(
                action_state(old(self)@, old(bus)@, *old(cpu), *old(should_run)),
                PanelSwitch::DepositNext,
            ),
    {
        self.address_switches = self.address_switches.wrapping_add(1);
        self.leds.address = u16_to_bool_array(self.address_switches);
        self.deposit(bus);
    }

    fn apply_action(
        &mut self,
        bus: &mut ImsaiBus,
        cpu: &mut CpuControl,
        should_run: &mut bool,
        action: PanelSwitch,
    )
        requires
            old(self).wf(),
            old(bus).wf(),
        ensures
            final(self).wf(),
            final(bus).wf(),
            final(self)@.pending == old(self)@.pending,
            final(self)@.io_log_capacity == old(self)@.io_log_capacity,
            final(bus)@.serial == old(bus)@.serial,
            final(bus)@.tarbell == old(bus)@.tarbell,
            action_state(final(self)@, final(bus)@, *final(cpu), *final(should_run)) == spec_action(
                action_state(old(self)@, old(bus)@, *old(cpu), *old(should_run)),
                action,
            ),
    {
        match action {
            PanelSwitch::RunStop => self.act_run_stop(bus, cpu, should_run),
            PanelSwitch::SingleStep => self.act_single_step(bus, cpu, should_run),
            PanelSwitch::Examine => self.act_examine(bus, cpu, should_run),
            PanelSwitch::Deposit => self.act_deposit(bus, cpu, should_run),
            PanelSwitch::ExamineNext => self.act_examine_next(bus, cpu, should_run),
            PanelSwitch::DepositNext => self.act_deposit_next(bus, cpu, should_run),
        }
    }

    /// Process all pending switch actions in the order they were pressed.
    ///
    /// EXAMINE/DEPOSIT act on memory; RUN/STOP, SINGLE STEP and EXAMINE act on
    /// the CPU's program counter and halt line. Returns true if the CPU should
    /// execute (RUN mode active).
    pub fn process_actions(&mut self, bus: &mut ImsaiBus, cpu: &mut CpuControl) -> (r: bool)
        requires
            old(self).wf(),
            old(bus).wf(),
        ensures
            final(self).wf(),
            final(bus).wf(),
            ({
                let s = spec_actions(
                    action_start(old(self)@, old(bus)@.ram, *old(cpu)),
                    old(self)@.pending,
                );
                &&& final(self)@ == spec_processed_panel(s)
                &&& final(bus)@ == (BusView { ram: s.ram, ..old(bus)@ })
                &&& *final(cpu) == (CpuControl { pc: s.pc, halted: s.halted })
                &&& r == s.should_run
            }),
    {
        let mut should_run = self.run_state == RunState::Running;
        let mut actions: Vec<PanelSwitch> = Vec::new();
        std::mem::swap(&mut actions, &mut self.pending_actions);
        let ghost start = action_start(old(self)@, old(bus)@.ram, *old(cpu));
        assert(action_state(self@, bus@, *cpu, should_run) == start);
        let mut i: usize = 0;
        while i < actions.len()
            invariant
                i <= actions@.len(),
                actions@ == old(self)@.pending,
                self.wf(),
                bus.wf(),
                self@.pending == Seq::<PanelSwitch>::empty(),
                self@.io_log_capacity == old(self)@.io_log_capacity,
                bus@.serial == old(bus)@.serial,
                bus@.tarbell == old(bus)@.tarbell,
                action_state(self@, bus@, *cpu, should_run) == spec_actions(
                    start,
                    actions@.subrange(0, i as int),
                ),
            decreases actions@.len() - i,
        {
            let action = actions[i];
            self.apply_action(bus, cpu, &mut should_run, action);
            assert(actions@.subrange(0, i + 1).drop_last() =~= actions@.subrange(0, i as int));
            i = i + 1;
        }
        assert(actions@.subrange(0, actions@.len() as int) =~= actions@);
        self.leds.run = self.run_state == RunState::Running;
        self.leds.power = true;
        should_run
    }
}

/// The panel after a SINGLE STEP ran one instruction: the address LEDs and
/// switches follow the new PC, the data LEDs show the byte there, M1 and
/// WAIT are lit, RUN is dark, HLTA shows the halt state, and the step is
/// logged with the byte at the PC it started from.
pub open spec fn spec_finish_single_step(p: PanelView, ram: Seq<u8>, pc_before: u16, cpu: CpuControl, cycles: u64) -> PanelView {
    PanelView {
        address_switches: cpu.pc,
        leds: LedView {
            address: bits16(cpu.pc),
            data: bits8(ram[cpu.pc as int]),
            m1: true,
            hlta: cpu.halted,
            run: false,
            wait: true,
            ..p.leds
        },
        io_log: log_push(
            p.io_log,
            p.io_log_capacity,
            IoEvent { cycle: cycles, address: pc_before, data: ram[pc_before as int], is_io: false, is_write: false, is_output: false },
        ),
        ..p
    }
}

/// The panel with the per-cycle LEDs (M1, IOR, IOW, MEMR, MWRT) dark.
pub open spec fn spec_clear_transient(p: PanelView) -> PanelView {
    PanelView { leds: LedView { m1: false, ior: false, iow: false, memr: false, mwrt: false, ..p.leds }, ..p }
}

/// The panel after an instruction ran in RUN mode: the LEDs show the new
/// PC and the byte there, and an OUT (0xD3) or IN (0xDB) is logged with its
/// port (the byte after the opcode) and the accumulator.
pub open spec fn spec_finish_instruction(
    p: PanelView,
    ram: Seq<u8>,
    op_byte: u8,
    pc_before: u16,
    cpu: CpuControl,
    cycles: u64,
    a: u8,
) -> PanelView {
    let p1 = spec_run_leds(p, cpu.pc, cpu.halted, ram[cpu.pc as int]);
    let port = ram[(pc_before as int + 1) % 65536];
    if op_byte == 0xD3 {
        let q = spec_log_event(p1, cycles, port as u16, a);
        PanelView {
            leds: LedView { iow: true, ior: false, mwrt: false, ..q.leds },
            io_log: log_push(
                q.io_log,
                q.io_log_capacity,
                IoEvent { cycle: cycles, address: port as u16, data: a, is_io: true, is_write: true, is_output: true },
            ),
            ..q
        }
    } else if op_byte == 0xDB {
        let q = spec_log_event(p1, cycles, port as u16, a);
        PanelView {
            leds: LedView { ior: true, iow: false, ..q.leds },
            io_log: log_push(
                q.io_log,
                q.io_log_capacity,
                IoEvent { cycle: cycles, address: port as u16, data: a, is_io: true, is_write: false, is_output: false },
            ),
            ..q
        }
    } else {
        p1
    }
}

impl FrontPanel {
    /// Panel bookkeeping after a SINGLE STEP executed one instruction: the
    /// address LEDs and switches follow the new PC, the data LEDs show the
    /// byte there, M1 and WAIT are lit, RUN is dark, HLTA shows whether the
    /// CPU halted, and the stepped instruction is logged.
    pub fn finish_single_step(&mut self, bus: &ImsaiBus, pc_before: u16, cpu: CpuControl, cycles: u64)
        requires
            old(self).wf(),
        ensures
            final(self).wf(),
            final(self)@ == spec_finish_single_step(old(self)@, bus@.ram, pc_before, cpu, cycles),
    {
        self.leds.address = u16_to_bool_array(cpu.pc);
        self.leds.data = u8_to_bool_array(bus.mem_read(cpu.pc));
        self.leds.m1 = true;
        self.leds.hlta = cpu.halted;
        self.leds.run = false;
        self.leds.wait = true;
        self.address_switches = cpu.pc;
        self.push_event(
            IoEvent {
                cycle: cycles,
                address: pc_before,
                data: bus.mem_read(pc_before),
                is_io: false,
                is_write: false,
                is_output: false,
            },
        );
    }

    /// Panel bookkeeping after the CPU executed one instruction in RUN mode:
    /// the LEDs show the new PC and the byte there, and an OUT (0xD3) or IN
    /// (0xDB) instruction is logged with its port and the accumulator.
    pub fn finish_instruction(
        &mut self,
        bus: &ImsaiBus,
        op_byte: u8,
        pc_before: u16,
        cpu: CpuControl,
        cycles: u64,
        a: u8,
    )
        requires
            old(self).wf(),
        ensures
            final(self).wf(),
            final(self)@ == spec_finish_instruction(old(self)@, bus@.ram, op_byte, pc_before, cpu, cycles, a),
    {
        let data_bus = bus.mem_read(cpu.pc);
        self.update_run_leds(cpu.pc, cpu.halted, data_bus);
        if op_byte == 0xD3 {
            let port = bus.mem_read(pc_before.wrapping_add(1));
            self.log_io_write(cycles, port, a);
        } else if op_byte == 0xDB {
            let port = bus.mem_read(pc_before.wrapping_add(1));
            self.log_io_read(cycles, port, a);
        }
    }
}

impl Default for FrontPanel {
    fn default() -> (r: Self)
        ensures
            r.wf(),
            r@ == spec_power_on_panel(),
    {
        Self::new()
    }
}


/// DEPOSIT then EXAMINE at the same switches: memory holds the deposited
/// byte, the data LEDs show it and the PC points at it.
pub proof fn lemma_deposit_then_examine(s: ActionState)
    requires
        s.ram.len() == 65536,
    ensures
        ({
            let a = s.panel.address_switches;
            let d = s.panel.data_switches;
            let s2 = spec_action(spec_action(s, PanelSwitch::Deposit), PanelSwitch::Examine);
            &&& s2.ram[a as int] == d
            &&& s2.panel.leds.data == bits8(d)
            &&& s2.panel.leds.address == bits16(a)
            &&& s2.pc == a
            &&& forall|i: int| 0 <= i < 65536 && i != a ==> #[trigger] s2.ram[i] == s.ram[i]
        }),
{
}

/// RUN/STOP toggles: from STOP it starts the CPU at the address switches,
/// and a second press stops it again.
pub proof fn lemma_run_stop_toggles(s: ActionState)
    requires
        s.panel.run_state == RunState::Stopped,
    ensures
        ({
            let s1 = spec_action(s, PanelSwitch::RunStop);
            let s2 = spec_action(s1, PanelSwitch::RunStop);
            &&& s1.panel.run_state == RunState::Running
            &&& s1.should_run
            &&& s1.pc == s.panel.address_switches
            &&& !s1.halted
            &&& !s1.panel.leds.wait
            &&& s2.panel.run_state == RunState::Stopped
            &&& !s2.should_run
            &&& s2.panel.leds.wait
            &&& s2.ram == s.ram
        }),
{
}

/// EXAMINE NEXT and DEPOSIT NEXT advance the address by one, wrapping from
/// 0xFFFF to 0x0000.
pub proof fn lemma_next_advances_with_wrap(s: ActionState)
    requires
        s.ram.len() == 65536,
    ensures
        ({
            let next = ((s.panel.address_switches as int + 1) % 65536) as u16;
            let e = spec_action(s, PanelSwitch::ExamineNext);
            let d = spec_action(s, PanelSwitch::DepositNext);
            &&& e.panel.address_switches == next
            &&& e.panel.leds.data == bits8(s.ram[next as int])
            &&& d.panel.address_switches == next
            &&& d.ram == s.ram.update(next as int, s.panel.data_switches)
        }),
        s.panel.address_switches == 0xFFFF ==> spec_action(s, PanelSwitch::ExamineNext).panel.address_switches
            == 0,
{
}

/// DEPOSIT then EXAMINE from the panel: processing a lone DEPOSIT writes
/// the data switches at the address switches and nothing else, lights MWRT
/// (not MEMR) and shows the address and the data; processing a lone EXAMINE
/// next shows that byte with MEMR lit and puts the PC at the address; and
/// processing with nothing pressed changes no LED.
pub proof fn lemma_processed_deposit_then_examine(p: PanelView, ram: Seq<u8>, cpu: CpuControl)
    requires
        ram.len() == 65536,
        p.pending == seq![PanelSwitch::Deposit],
    ensures
        ({
            let a = p.address_switches;
            let d = p.data_switches;
            let s = spec_actions(action_start(p, ram, cpu), p.pending);
            let p2 = PanelView { pending: seq![PanelSwitch::Examine], ..spec_processed_panel(s) };
            let s2 = spec_actions(action_start(p2, s.ram, CpuControl { pc: s.pc, halted: s.halted }), p2.pending);
            &&& s.ram == ram.update(a as int, d)
            &&& s.panel.leds.mwrt && !s.panel.leds.memr
            &&& s.panel.leds.address == bits16(a) && s.panel.leds.data == bits8(d)
            &&& s2.ram == s.ram
            &&& s2.panel.leds.data == bits8(d) && s2.panel.leds.memr && !s2.panel.leds.mwrt
            &&& s2.panel.leds.address == bits16(a)
            &&& s2.pc == a
        }),
        forall|q: PanelView, r: Seq<u8>, c: CpuControl|
            #![trigger spec_actions(action_start(q, r, c), Seq::<PanelSwitch>::empty())]
            spec_actions(action_start(q, r, c), Seq::<PanelSwitch>::empty()).panel.leds == q.leds,
{
    let a = p.address_switches;
    let s0 = action_start(p, ram, cpu);
    assert(p.pending.drop_last() =~= Seq::<PanelSwitch>::empty());
    assert(spec_actions(s0, p.pending.drop_last()) == s0);
    assert(p.pending.last() == PanelSwitch::Deposit);
    let s = spec_actions(s0, p.pending);
    assert(s == spec_deposit(s0));
    let p2 = PanelView { pending: seq![PanelSwitch::Examine], ..spec_processed_panel(s) };
    let s1 = action_start(p2, s.ram, CpuControl { pc: s.pc, halted: s.halted });
    assert(p2.pending.drop_last() =~= Seq::<PanelSwitch>::empty());
    assert(spec_actions(s1, p2.pending.drop_last()) == s1);
    assert(p2.pending.last() == PanelSwitch::Examine);
    assert(s.ram[a as int] == p.data_switches);
}

} // verus!
