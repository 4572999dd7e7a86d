//! Front panel programs: hex operand parsing, and sequences of switch
//! settings and button presses run against the panel, memory and CPU.
use vstd::prelude::*;
use crate::bus::{BusView, ImsaiBus, spec_load};
use crate::emulator::Imsai8080;
use crate::cards::front_panel::{
    CpuControl, FrontPanel, PanelSwitch, PanelView, RunState, action_start, spec_action,
    spec_actions, spec_processed_panel, spec_set_address,
};
use crate::text::{dec_seq, hex_char, hex2_seq, hex4_seq, push_decimal, push_hex2, push_hex4, push_text};

verus! {

/// Unicode White_Space (what `char::is_whitespace` and `str::trim` use).
pub open spec fn is_white(c: char) -> bool {
    let n = c as int;
    n == 0x20 || (0x09 <= n <= 0x0D) || n == 0x85 || n == 0xA0 || n == 0x1680 || (0x2000 <= n
        <= 0x200A) || n == 0x2028 || n == 0x2029 || n == 0x202F || n == 0x205F || n == 0x3000
}

/// `s` without leading white space.
pub open spec fn trim_start_white(s: Seq<char>) -> Seq<char>
    decreases s.len(),
{
    if s.len() > 0 && is_white(s[0]) {
        trim_start_white(s.drop_first())
    } else {
        s
    }
}

/// `s` without trailing white space.
pub open spec fn trim_end_white(s: Seq<char>) -> Seq<char>
    decreases s.len(),
{
    if s.len() > 0 && is_white(s.last()) {
        trim_end_white(s.drop_last())
    } else {
        s
    }
}

/// `s` with every leading repetition of the two-character prefix `ab` removed.
pub open spec fn strip_all_prefix(s: Seq<char>, a: char, b: char) -> Seq<char>
    decreases s.len(),
{
    if s.len() >= 2 && s[0] == a && s[1] == b {
        strip_all_prefix(s.subrange(2, s.len() as int), a, b)
    } else {
        s
    }
}

/// The digits a hex parser looks at: `s` trimmed, then stripped of leading
/// "0x" prefixes, then of leading "0X" prefixes.
pub open spec fn hex_operand(s: Seq<char>) -> Seq<char> {
    strip_all_prefix(strip_all_prefix(trim_end_white(trim_start_white(s)), '0', 'x'), '0', 'X')
}

/// Value of a hexadecimal digit (either case).
pub open spec fn hex_digit_value(c: char) -> Option<int> {
    let n = c as int;
    if 0x30 <= n <= 0x39 {
        Some(n - 0x30)
    } else if 0x41 <= n <= 0x46 {
        Some(n - 0x41 + 10)
    } else if 0x61 <= n <= 0x66 {
        Some(n - 0x61 + 10)
    } else {
        None
    }
}

/// Why a string is not a number.
#[derive(Debug, Clone, Copy, PartialEq, Eq, Structural)]
pub enum ParseErrorKind {
    /// Nothing to parse.
    Empty,
    /// A character that is not a digit.
    InvalidDigit,
    /// The value does not fit the target type.
    PosOverflow,
}

/// Digits read left to right onto `acc`: the first non-digit is an error,
/// and so is a running value above `max`.
pub open spec fn digits_value(d: Seq<char>, acc: int, max: int) -> Result<int, ParseErrorKind>
    decreases d.len(),
{
    if d.len() == 0 {
        Ok(acc)
    } else {
        match hex_digit_value(d[0]) {
            None => Err(ParseErrorKind::InvalidDigit),
            Some(v) => if acc * 16 + v > max {
                Err(ParseErrorKind::PosOverflow)
            } else {
                digits_value(d.drop_first(), acc * 16 + v, max)
            },
        }
    }
}

/// Unsigned base-16 parse of `s` with values up to `max`: one leading '+'
/// is allowed before at least one digit.
pub open spec fn from_hex_radix(s: Seq<char>, max: int) -> Result<int, ParseErrorKind> {
    if s.len() == 0 {
        Err(ParseErrorKind::Empty)
    } else if s.len() == 1 && (s[0] == '+' || s[0] == '-') {
        Err(ParseErrorKind::InvalidDigit)
    } else if s[0] == '+' {
        digits_value(s.drop_first(), 0, max)
    } else {
        digits_value(s, 0, max)
    }
}

/// The standard wording of each parse error.
pub open spec fn error_text(k: ParseErrorKind) -> Seq<char> {
    match k {
        ParseErrorKind::Empty => "cannot parse integer from empty string"@,
        ParseErrorKind::InvalidDigit => "invalid digit found in string"@,
        ParseErrorKind::PosOverflow => "number too large to fit in target type"@,
    }
}

/// Result of parsing `s` as a hex `what` ("byte" or "address") up to `max`:
/// the value, or the message `Invalid hex <what> '<operand>': <reason>`.
pub open spec fn hex_parse_result(s: Seq<char>, max: int, what: Seq<char>) -> Result<int, Seq<char>> {
    let t = hex_operand(s);
    match from_hex_radix(t, max) {
        Ok(v) => Ok(v),
        Err(k) => Err("Invalid hex "@ + what + " '"@ + t + "': "@ + error_text(k)),
    }
}

/// `parse_hex8` on the characters `s`.
pub open spec fn hex8_result(s: Seq<char>) -> Result<int, Seq<char>> {
    hex_parse_result(s, 255, "byte"@)
}

/// `parse_hex16` on the characters `s`.
pub open spec fn hex16_result(s: Seq<char>) -> Result<int, Seq<char>> {
    hex_parse_result(s, 65535, "address"@)
}

/// Bytes of the white-space separated tokens of `s` from position `i` on,
/// each parsed as by `parse_hex8`, appended to `acc`; `start` is where the
/// token under way began. The first token that does not parse gives the error.
pub open spec fn hex_bytes_from(s: Seq<char>, i: int, start: Option<int>, acc: Seq<u8>) -> Result<
    Seq<u8>,
    Seq<char>,
>
    decreases s.len() - i,
{
    if i >= s.len() {
        match start {
            None => Ok(acc),
            Some(st) => match hex8_result(s.subrange(st, s.len() as int)) {
                Ok(b) => Ok(acc.push(b as u8)),
                Err(e) => Err(e),
            },
        }
    } else if is_white(s[i]) {
        match start {
            None => hex_bytes_from(s, i + 1, None, acc),
            Some(st) => match hex8_result(s.subrange(st, i)) {
                Ok(b) => hex_bytes_from(s, i + 1, None, acc.push(b as u8)),
                Err(e) => Err(e),
            },
        }
    } else {
        match start {
            None => hex_bytes_from(s, i + 1, Some(i), acc),
            Some(st) => hex_bytes_from(s, i + 1, Some(st), acc),
        }
    }
}

/// The characters of `s`.
pub fn chars_of(s: &str) -> (v: Vec<char>)
    ensures
        v@ == s@,
{
    let n = s.unicode_len();
    let mut v: Vec<char> = Vec::new();
    let mut i: usize = 0;
    while i < n
        invariant
            n == s@.len(),
            i <= n,
            v@ == s@.subrange(0, i as int),
        decreases n - i,
    {
        v.push(s.get_char(i));
        assert(v@ =~= s@.subrange(0, i + 1));
        i = i + 1;
    }
    assert(v@ =~= s@);
    v
}

pub(crate) fn is_white_char(c: char) -> (r: bool)
    ensures
        r == is_white(c),
{
    let n = c as u32;
    n == 0x20 || (0x09 <= n && n <= 0x0D) || n == 0x85 || n == 0xA0 || n == 0x1680 || (0x2000 <= n
        && n <= 0x200A) || n == 0x2028 || n == 0x2029 || n == 0x202F || n == 0x205F || n == 0x3000
}

pub(crate) fn hex_digit_of_char(c: char) -> (r: Option<u32>)
    ensures
        match hex_digit_value(c) {
            Some(v) => r == Some(v as u32),
            None => r is None,
        },
{
    let n = c as u32;
    if 0x30 <= n && n <= 0x39 {
        Some(n - 0x30)
    } else if 0x41 <= n && n <= 0x46 {
        Some(n - 0x41 + 10)
    } else if 0x61 <= n && n <= 0x66 {
        Some(n - 0x61 + 10)
    } else {
        None
    }
}

/// The bounds of `hex_operand` of `v[lo0..hi0]` inside `v`.
fn hex_operand_bounds(v: &Vec<char>, lo0: usize, hi0: usize) -> (r: (usize, usize))
    requires
        lo0 <= hi0 <= v@.len(),
    ensures
        lo0 <= r.0 <= r.1 <= hi0,
        v@.subrange(r.0 as int, r.1 as int) == hex_operand(v@.subrange(lo0 as int, hi0 as int)),
{
    let (lo, hi) = hex_operand_bounds_trim(v, lo0, hi0);
    let lo2 = strip_prefix_from(v, lo, hi, 'x');
    let lo3 = strip_prefix_from(v, lo2, hi, 'X');
    (lo3, hi)
}

/// The bounds of `v[lo0..hi0]` without leading and trailing white space.
pub(crate) fn hex_operand_bounds_trim(v: &Vec<char>, lo0: usize, hi0: usize) -> (r: (usize, usize))
    requires
        lo0 <= hi0 <= v@.len(),
    ensures
        lo0 <= r.0 <= r.1 <= hi0,
        v@.subrange(r.0 as int, r.1 as int) == trim_end_white(
            trim_start_white(v@.subrange(lo0 as int, hi0 as int)),
        ),
{
    let ghost s = v@.subrange(lo0 as int, hi0 as int);
    let mut lo = lo0;
    while lo < hi0 && is_white_char(v[lo])
        invariant
            lo0 <= lo <= hi0 <= v@.len(),
            trim_start_white(s) == trim_start_white(v@.subrange(lo as int, hi0 as int)),
        decreases hi0 - lo,
    {
        assert(v@.subrange(lo as int, hi0 as int).drop_first() =~= v@.subrange(lo + 1, hi0 as int));
        lo = lo + 1;
    }
    let ghost t1 = v@.subrange(lo as int, hi0 as int);
    assert(trim_start_white(s) == t1);
    let mut hi = hi0;
    while hi > lo && is_white_char(v[hi - 1])
        invariant
            lo0 <= lo <= hi <= hi0 <= v@.len(),
            t1 == v@.subrange(lo as int, hi0 as int),
            trim_end_white(t1) == trim_end_white(v@.subrange(lo as int, hi as int)),
        decreases hi - lo,
    {
        assert(v@.subrange(lo as int, hi as int).drop_last() =~= v@.subrange(lo as int, hi - 1));
        hi = hi - 1;
    }
    let ghost t2 = v@.subrange(lo as int, hi as int);
    assert(trim_end_white(t1) == t2);
    (lo, hi)
}


/// Start of `strip_all_prefix(v[lo..hi], '0', b)` inside `v`.
fn strip_prefix_from(v: &Vec<char>, lo0: usize, hi: usize, b: char) -> (r: usize)
    requires
        lo0 <= hi <= v@.len(),
    ensures
        lo0 <= r <= hi,
        v@.subrange(r as int, hi as int) == strip_all_prefix(v@.subrange(lo0 as int, hi as int), '0', b),
{
    let ghost t = v@.subrange(lo0 as int, hi as int);
    let mut lo = lo0;
    while hi - lo >= 2 && v[lo] == '0' && v[lo + 1] == b
        invariant
            lo0 <= lo <= hi <= v@.len(),
            strip_all_prefix(t, '0', b) == strip_all_prefix(v@.subrange(lo as int, hi as int), '0', b),
        decreases hi - lo,
    {
        assert(v@.subrange(lo as int, hi as int).subrange(2, hi - lo) =~= v@.subrange(
            lo + 2,
            hi as int,
        ));
        lo = lo + 2;
    }
    lo
}

/// `v` stripped of leading "0x" prefixes, then of leading "0X" prefixes,
/// read as a hex number up to 0xFFFF (no white space is trimmed).
pub(crate) fn parse_hex_digits_in(v: &Vec<char>) -> (r: Option<u16>)
    ensures
        match from_hex_radix(strip_all_prefix(strip_all_prefix(v@, '0', 'x'), '0', 'X'), 65535) {
            Ok(x) => r == Some(x as u16),
            Err(_) => r is None,
        },
{
    assert(v@.subrange(0, v@.len() as int) =~= v@);
    let lo2 = strip_prefix_from(v, 0, v.len(), 'x');
    let lo3 = strip_prefix_from(v, lo2, v.len(), 'X');
    match parse_hex_digits(v, lo3, v.len(), 65535) {
        Ok(x) => Some(x as u16),
        Err(_) => None,
    }
}

/// `from_hex_radix` of `v[lo..hi]` with values up to `max`.
fn parse_hex_digits(v: &Vec<char>, lo: usize, hi: usize, max: u32) -> (r: Result<u32, ParseErrorKind>)
    requires
        lo <= hi <= v@.len(),
        max <= 65535,
    ensures
        match from_hex_radix(v@.subrange(lo as int, hi as int), max as int) {
            Ok(x) => r == Ok::<u32, ParseErrorKind>(x as u32) && 0 <= x <= max,
            Err(k) => r == Err::<u32, ParseErrorKind>(k),
        },
{
    let ghost s = v@.subrange(lo as int, hi as int);
    if lo == hi {
        return Err(ParseErrorKind::Empty);
    }
    if hi - lo == 1 && (v[lo] == '+' || v[lo] == '-') {
        return Err(ParseErrorKind::InvalidDigit);
    }
    let mut k = lo;
    if v[lo] == '+' {
        assert(s.drop_first() =~= v@.subrange(lo + 1, hi as int));
        k = lo + 1;
    } else {
        assert(s =~= v@.subrange(lo as int, hi as int));
    }
    let mut acc: u32 = 0;
    while k < hi
        invariant
            lo <= k <= hi <= v@.len(),
            max <= 65535,
            acc <= max,
            s == v@.subrange(lo as int, hi as int),
            from_hex_radix(s, max as int) == digits_value(
                v@.subrange(k as int, hi as int),
                acc as int,
                max as int,
            ),
        decreases hi - k,
    {
        assert(v@.subrange(k as int, hi as int).drop_first() =~= v@.subrange(k + 1, hi as int));
        assert(v@.subrange(k as int, hi as int)[0] == v@[k as int]);
        match hex_digit_of_char(v[k]) {
            None => {
                assert(digits_value(v@.subrange(k as int, hi as int), acc as int, max as int)
                    == Err::<int, ParseErrorKind>(ParseErrorKind::InvalidDigit));
                return Err(ParseErrorKind::InvalidDigit);
            },
            Some(d) => {
                let n = acc * 16 + d;
                if n > max {
                    assert(digits_value(v@.subrange(k as int, hi as int), acc as int, max as int)
                        == Err::<int, ParseErrorKind>(ParseErrorKind::PosOverflow));
                    return Err(ParseErrorKind::PosOverflow);
                }
                acc = n;
            },
        }
        k = k + 1;
    }
    Ok(acc)
}

/// Append `v[lo..hi]` to `s`.
fn push_chars(s: &mut String, v: &Vec<char>, lo: usize, hi: usize)
    requires
        lo <= hi <= v@.len(),
    ensures
        final(s)@ == old(s)@ + v@.subrange(lo as int, hi as int),
{
    let mut k = lo;
    while k < hi
        invariant
            lo <= k <= hi <= v@.len(),
            s@ == old(s)@ + v@.subrange(lo as int, k as int),
        decreases hi - k,
    {
        s.push(v[k]);
        assert(v@.subrange(lo as int, k + 1) =~= v@.subrange(lo as int, k as int).push(v@[k as int]));
        k = k + 1;
    }
}

/// The standard wording of a parse error.
fn error_message(k: ParseErrorKind) -> (r: &'static str)
    ensures
        r@ == error_text(k),
{
    match k {
        ParseErrorKind::Empty => "cannot parse integer from empty string",
        ParseErrorKind::InvalidDigit => "invalid digit found in string",
        ParseErrorKind::PosOverflow => "number too large to fit in target type",
    }
}

/// Parse `v[lo0..hi0]` as a hex number up to `max`, naming it `what` in errors.
fn parse_hex_range(v: &Vec<char>, lo0: usize, hi0: usize, max: u32, what: &str) -> (r: Result<u32, String>)
    requires
        lo0 <= hi0 <= v@.len(),
        max <= 65535,
    ensures
        match hex_parse_result(v@.subrange(lo0 as int, hi0 as int), max as int, what@) {
            Ok(x) => r == Ok::<u32, String>(x as u32) && 0 <= x <= max,
            Err(e) => r matches Err(m) && m@ == e,
        },
{
    let (lo, hi) = hex_operand_bounds(v, lo0, hi0);
    match parse_hex_digits(v, lo, hi, max) {
        Ok(x) => Ok(x),
        Err(k) => {
            let mut m = String::new();
            push_text(&mut m, "Invalid hex ");
            push_text(&mut m, what);
            push_text(&mut m, " '");
            push_chars(&mut m, v, lo, hi);
            push_text(&mut m, "': ");
            push_text(&mut m, error_message(k));
            assert(m@ =~= "Invalid hex "@ + what@ + " '"@ + v@.subrange(lo as int, hi as int) + "': "@
                + error_text(k));
            Err(m)
        },
    }
}

/// Parse a hex string like "3E" or "0x3E" into a u8.
pub fn parse_hex8(s: &str) -> (r: Result<u8, String>)
    ensures
        match hex8_result(s@) {
            Ok(x) => r == Ok::<u8, String>(x as u8),
            Err(e) => r matches Err(m) && m@ == e,
        },
{
    let v = chars_of(s);
    assert(v@.subrange(0, v@.len() as int) =~= s@);
    match parse_hex_range(&v, 0, v.len(), 255, "byte") {
        Ok(x) => Ok(x as u8),
        Err(m) => Err(m),
    }
}

/// Parse a hex string like "0100" or "0x0100" into a u16.
pub fn parse_hex16(s: &str) -> (r: Result<u16, String>)
    ensures
        match hex16_result(s@) {
            Ok(x) => r == Ok::<u16, String>(x as u16),
            Err(e) => r matches Err(m) && m@ == e,
        },
{
    let v = chars_of(s);
    assert(v@.subrange(0, v@.len() as int) =~= s@);
    match parse_hex_range(&v, 0, v.len(), 65535, "address") {
        Ok(x) => Ok(x as u16),
        Err(m) => Err(m),
    }
}

/// Parse a space-separated hex string like "3E 41 D3 00" into bytes.
pub fn parse_hex_bytes(s: &str) -> (r: Result<Vec<u8>, String>)
    ensures
        match hex_bytes_from(s@, 0, None, Seq::empty()) {
            Ok(bytes) => r matches Ok(v) && v@ == bytes,
            Err(e) => r matches Err(m) && m@ == e,
        },
{
    let v = chars_of(s);
    let n = v.len();
    let mut out: Vec<u8> = Vec::new();
    let mut start: Option<usize> = None;
    let mut i: usize = 0;
    while i < n
        invariant
            n == v@.len(),
            v@ == s@,
            i <= n,
            match start {
                Some(st) => st < i,
                None => true,
            },
            hex_bytes_from(s@, 0, None, Seq::empty()) == hex_bytes_from(
                s@,
                i as int,
                match start {
                    Some(st) => Some(st as int),
                    None => None,
                },
                out@,
            ),
        decreases n - i,
    {
        if is_white_char(v[i]) {
            match start {
                Some(st) => {
                    match parse_hex_range(&v, st, i, 255, "byte") {
                        Ok(b) => {
                            out.push(b as u8);
                        },
                        Err(m) => {
                            return Err(m);
                        },
                    }
                },
                None => {},
            }
            start = None;
        } else {
            match start {
                Some(_) => {},
                None => {
                    start = Some(i);
                },
            }
        }
        i = i + 1;
    }
    match start {
        Some(st) => match parse_hex_range(&v, st, n, 255, "byte") {
            Ok(b) => {
                out.push(b as u8);
            },
            Err(m) => {
                return Err(m);
            },
        },
        None => {},
    }
    Ok(out)
}


/// A single front panel step.
#[derive(Debug, Clone)]
pub enum PanelStep {
    /// Set address and data switches, press DEPOSIT.
    Deposit { address: String, data: String },
    /// Set data switches, press DEPOSIT NEXT (auto-advances address).
    DepositNext { data: String },
    /// Set address switches, press EXAMINE.
    Examine { address: String },
    /// Press EXAMINE NEXT.
    ExamineNext,
    /// Set address switches, press RUN/STOP.
    Run { address: String },
    /// Load raw bytes into memory starting at address (bypasses front panel).
    Load { address: String, data: String },
}

/// A front panel program: named sequence of steps.
#[derive(Debug, Clone)]
pub struct PanelProgram {
    /// Program name (shown in UI).
    pub name: String,
    /// Program description.
    pub description: String,
    /// Steps to execute in order.
    pub steps: Vec<PanelStep>,
}

/// The parsed address, or `None` when it does not parse.
pub open spec fn hex16_ok(s: Seq<char>) -> Option<u16> {
    match hex16_result(s) {
        Ok(v) => Some(v as u16),
        Err(_) => None,
    }
}

/// The parsed address, or 0 when it does not parse.
pub open spec fn hex16_or_zero(s: Seq<char>) -> u16 {
    match hex16_result(s) {
        Ok(v) => v as u16,
        Err(_) => 0,
    }
}

/// The parsed byte, or 0 when it does not parse.
pub open spec fn hex8_or_zero(s: Seq<char>) -> u8 {
    match hex8_result(s) {
        Ok(v) => v as u8,
        Err(_) => 0,
    }
}

/// Address of the first RUN, DEPOSIT or LOAD step (`None` if it does not parse
/// or there is no such step).
pub open spec fn program_start(steps: Seq<PanelStep>) -> Option<u16>
    decreases steps.len(),
{
    if steps.len() == 0 {
        None
    } else {
        match steps[0] {
            PanelStep::Run { address } => hex16_ok(address@),
            PanelStep::Deposit { address, .. } => hex16_ok(address@),
            PanelStep::Load { address, .. } => hex16_ok(address@),
            _ => program_start(steps.drop_first()),
        }
    }
}

/// What a panel program acts on: the panel, the bus and the CPU's PC and halt line.
pub struct PanelMachine {
    pub panel: PanelView,
    pub bus: BusView,
    pub cpu: CpuControl,
}

/// All pending switches processed, as `FrontPanel::process_actions` does.
pub open spec fn spec_process(m: PanelMachine) -> PanelMachine {
    let s = spec_actions(action_start(m.panel, m.bus.ram, m.cpu), m.panel.pending);
    PanelMachine {
        panel: spec_processed_panel(s),
        bus: BusView { ram: s.ram, ..m.bus },
        cpu: CpuControl { pc: s.pc, halted: s.halted },
    }
}

/// Press a switch, then process the pending switches.
pub open spec fn spec_press(m: PanelMachine, sw: PanelSwitch) -> PanelMachine {
    spec_process(PanelMachine { panel: PanelView { pending: m.panel.pending.push(sw), ..m.panel }, ..m })
}

/// Effect of one step. Addresses and data that do not parse count as 0; a
/// LOAD whose data does not parse changes nothing.
#[verifier::opaque]
pub open spec fn spec_panel_step(m: PanelMachine, step: PanelStep) -> PanelMachine {
    match step {
        PanelStep::Deposit { address, data } => {
            let p1 = spec_set_address(m.panel, hex16_or_zero(address@));
            let p2 = PanelView { data_switches: hex8_or_zero(data@), ..p1 };
            spec_press(PanelMachine { panel: p2, ..m }, PanelSwitch::Deposit)
        },
        PanelStep::DepositNext { data } => spec_press(
            PanelMachine { panel: PanelView { data_switches: hex8_or_zero(data@), ..m.panel }, ..m },
            PanelSwitch::DepositNext,
        ),
        PanelStep::Examine { address } => spec_press(
            PanelMachine { panel: spec_set_address(m.panel, hex16_or_zero(address@)), ..m },
            PanelSwitch::Examine,
        ),
        PanelStep::ExamineNext => spec_press(m, PanelSwitch::ExamineNext),
        PanelStep::Run { address } => spec_press(
            PanelMachine { panel: spec_set_address(m.panel, hex16_or_zero(address@)), ..m },
            PanelSwitch::RunStop,
        ),
        PanelStep::Load { address, data } => match hex_bytes_from(data@, 0, None, Seq::empty()) {
            Ok(bytes) => PanelMachine {
                bus: BusView { ram: spec_load(m.bus.ram, hex16_or_zero(address@), bytes), ..m.bus },
                ..m
            },
            Err(_) => m,
        },
    }
}

/// Effect of the steps, in order.
pub open spec fn spec_run_program(m: PanelMachine, steps: Seq<PanelStep>) -> PanelMachine
    decreases steps.len(),
{
    if steps.len() == 0 {
        m
    } else {
        spec_panel_step(spec_run_program(m, steps.drop_last()), steps.last())
    }
}

/// The machine made of a panel, a bus and the CPU lines.
pub open spec fn machine(panel: PanelView, bus: BusView, cpu: CpuControl) -> PanelMachine {
    PanelMachine { panel, bus, cpu }
}

fn press_and_process(panel: &mut FrontPanel, bus: &mut ImsaiBus, cpu: &mut CpuControl, sw: PanelSwitch)
    requires
        old(panel).wf(),
        old(bus).wf(),
    ensures
        final(panel).wf(),
        final(bus).wf(),
        machine(final(panel)@, final(bus)@, *final(cpu)) == spec_press(
            machine(old(panel)@, old(bus)@, *old(cpu)),
            sw,
        ),
{
    panel.press_switch(sw);
    panel.process_actions(bus, cpu);
}

fn parse16_or_zero(s: &String) -> (r: u16)
    ensures
        r == hex16_or_zero(s@),
{
    match parse_hex16(s.as_str()) {
        Ok(v) => v,
        Err(_) => 0,
    }
}

fn parse8_or_zero(s: &String) -> (r: u8)
    ensures
        r == hex8_or_zero(s@),
{
    match parse_hex8(s.as_str()) {
        Ok(v) => v,
        Err(_) => 0,
    }
}

fn execute_step(panel: &mut FrontPanel, bus: &mut ImsaiBus, cpu: &mut CpuControl, step: &PanelStep)
    requires
        old(panel).wf(),
        old(bus).wf(),
    ensures
        final(panel).wf(),
        final(bus).wf(),
        machine(final(panel)@, final(bus)@, *final(cpu)) == spec_panel_step(
            machine(old(panel)@, old(bus)@, *old(cpu)),
            *step,
        ),
{
    reveal(spec_panel_step);
    match step {
        PanelStep::Deposit { address, data } => {
            let addr = parse16_or_zero(address);
            let byte = parse8_or_zero(data);
            panel.set_address_switches(addr);
            panel.set_data_switches(byte);
            press_and_process(panel, bus, cpu, PanelSwitch::Deposit);
        },
        PanelStep::DepositNext { data } => {
            let byte = parse8_or_zero(data);
            panel.set_data_switches(byte);
            press_and_process(panel, bus, cpu, PanelSwitch::DepositNext);
        },
        PanelStep::Examine { address } => {
            let addr = parse16_or_zero(address);
            panel.set_address_switches(addr);
            press_and_process(panel, bus, cpu, PanelSwitch::Examine);
        },
        PanelStep::ExamineNext => {
            press_and_process(panel, bus, cpu, PanelSwitch::ExamineNext);
        },
        PanelStep::Run { address } => {
            let addr = parse16_or_zero(address);
            panel.set_address_switches(addr);
            press_and_process(panel, bus, cpu, PanelSwitch::RunStop);
        },
        PanelStep::Load { address, data } => {
            let addr = parse16_or_zero(address);
            match parse_hex_bytes(data.as_str()) {
                Ok(bytes) => {
                    bus.load(addr, bytes.as_slice());
                },
                Err(_) => {},
            }
        },
    }
}

/// Run a panel program's steps on a panel, a bus and the CPU lines: each
/// step sets the switches and presses a button (then the pending switches
/// are processed), or loads bytes into memory directly.
pub fn run_panel_steps(
    panel: &mut FrontPanel,
    bus: &mut ImsaiBus,
    cpu: &mut CpuControl,
    prog: &PanelProgram,
)
    requires
        old(panel).wf(),
        old(bus).wf(),
    ensures
        final(panel).wf(),
        final(bus).wf(),
        machine(final(panel)@, final(bus)@, *final(cpu)) == spec_run_program(
            machine(old(panel)@, old(bus)@, *old(cpu)),
            prog.steps@,
        ),
{
    let mut i: usize = 0;
    while i < prog.steps.len()
        invariant
            i <= prog.steps@.len(),
            panel.wf(),
            bus.wf(),
            machine(panel@, bus@, *cpu) == spec_run_program(
                machine(old(panel)@, old(bus)@, *old(cpu)),
                prog.steps@.subrange(0, i as int),
            ),
        decreases prog.steps@.len() - i,
    {
        execute_step(panel, bus, cpu, &prog.steps[i]);
        assert(prog.steps@.subrange(0, i + 1).drop_last() =~= prog.steps@.subrange(0, i as int));
        i = i + 1;
    }
    assert(prog.steps@.subrange(0, prog.steps@.len() as int) =~= prog.steps@);
}

/// Execute a panel program on the machine: each step sets the switches and
/// presses a button (then the pending switches are processed against the
/// CPU's PC and halt line), or loads bytes into memory directly.
pub fn execute_panel_program(emu: &mut Imsai8080, prog: &PanelProgram)
    requires
        old(emu).wf(),
    ensures
        final(emu).wf(),
        final(emu).cycles == old(emu).cycles,
        ({
            let m = spec_run_program(machine(old(emu).panel@, old(emu).bus@, old(emu).control_lines()), prog.steps@);
            &&& final(emu).panel@ == m.panel
            &&& final(emu).bus@ == m.bus
            &&& final(emu).cpu == (crate::emulator::CoreRegisters { pc: m.cpu.pc, halt: m.cpu.halted, ..old(emu).cpu })
        }),
{
    let mut c = emu.control();
    run_panel_steps(&mut emu.panel, &mut emu.bus, &mut c, prog);
    emu.set_control(c);
}

/// Find the start address from a panel program (first "run", "deposit", or "load" step).
pub fn find_program_start(prog: &PanelProgram) -> (r: Option<u16>)
    ensures
        r == program_start(prog.steps@),
{
    assert(prog.steps@.subrange(0, prog.steps@.len() as int) =~= prog.steps@);
    let mut i: usize = 0;
    while i < prog.steps.len()
        invariant
            i <= prog.steps@.len(),
            program_start(prog.steps@) == program_start(prog.steps@.subrange(i as int, prog.steps@.len() as int)),
        decreases prog.steps@.len() - i,
    {
        let ghost rest = prog.steps@.subrange(i as int, prog.steps@.len() as int);
        assert(rest[0] == prog.steps@[i as int]);
        assert(rest.drop_first() =~= prog.steps@.subrange(i + 1, prog.steps@.len() as int));
        match &prog.steps[i] {
            PanelStep::Run { address } => {
                return match parse_hex16(address.as_str()) {
                    Ok(v) => Some(v),
                    Err(_) => None,
                };
            },
            PanelStep::Deposit { address, .. } => {
                return match parse_hex16(address.as_str()) {
                    Ok(v) => Some(v),
                    Err(_) => None,
                };
            },
            PanelStep::Load { address, .. } => {
                return match parse_hex16(address.as_str()) {
                    Ok(v) => Some(v),
                    Err(_) => None,
                };
            },
            _ => {},
        }
        i = i + 1;
    }
    None
}

/// Hex bytes separated by single spaces.
pub open spec fn hex_join(bs: Seq<u8>) -> Seq<char>
    decreases bs.len(),
{
    if bs.len() == 0 {
        Seq::empty()
    } else if bs.len() == 1 {
        hex2_seq(bs[0])
    } else {
        hex_join(bs.drop_last()) + " "@ + hex2_seq(bs.last())
    }
}

/// `n` bytes of memory starting `from` bytes after `start`, wrapping at 0xFFFF.
pub open spec fn dump_bytes(ram: Seq<u8>, start: u16, from: int, n: int) -> Seq<u8> {
    Seq::new(n as nat, |j: int| ram[(start + from + j) % 65536])
}

/// Number of 16-byte LOAD steps for `len` bytes.
pub open spec fn chunk_count(len: int) -> int {
    (len + 15) / 16
}

/// Size of chunk `k` of a `len`-byte dump.
pub open spec fn chunk_size(len: int, k: int) -> int {
    if len - 16 * k < 16 { len - 16 * k } else { 16 }
}

/// Step `k` of a memory dump is the LOAD of chunk `k`.
#[verifier::opaque]
pub open spec fn is_dump_chunk(step: PanelStep, ram: Seq<u8>, start: u16, len: int, k: int) -> bool {
    step matches PanelStep::Load { address, data } && address@ == hex4_seq(
        ((start + 16 * k) % 65536) as u16,
    ) && data@ == hex_join(dump_bytes(ram, start, 16 * k, chunk_size(len, k)))
}

/// The text of chunk `[offset, offset + n)` of the dump.
fn chunk_text(bus: &ImsaiBus, start: u16, offset: u16, n: u16) -> (r: String)
    requires
        offset + n <= 0xFFFF,
    ensures
        r@ == hex_join(dump_bytes(bus@.ram, start, offset as int, n as int)),
{
    let mut chunk = String::new();
    let mut i: u16 = 0;
    while i < n
        invariant
            offset + n <= 0xFFFF,
            i <= n,
            chunk@ == hex_join(dump_bytes(bus@.ram, start, offset as int, i as int)),
        decreases n - i,
    {
        let addr = start.wrapping_add(offset + i);
        let byte = bus.mem_read(addr);
        let ghost before = dump_bytes(bus@.ram, start, offset as int, i as int);
        let ghost after = dump_bytes(bus@.ram, start, offset as int, i + 1);
        assert(after.drop_last() =~= before);
        assert(after.last() == byte);
        if i > 0 {
            chunk.push(' ');
        }
        push_hex2(&mut chunk, byte);
        proof {
            reveal_strlit(" ");
            if i > 0 {
                assert(chunk@ =~= hex_join(after));
            } else {
                assert(chunk@ =~= hex_join(after));
            }
        }
        i = i + 1;
    }
    chunk
}

/// Create a panel program from a region of memory: LOAD steps of 16 bytes
/// each (the last one shorter), then RUN at the start address.
#[verifier::rlimit(80)]
pub fn memory_to_program(emu: &Imsai8080, start: u16, len: u16) -> (r: PanelProgram)
    ensures
        r.name@ == "dump_"@ + hex4_seq(start),
        r.description@ == "Memory dump from 0x"@ + hex4_seq(start) + ", "@ + dec_seq(len as nat)
            + " bytes"@,
        r.steps@.len() == chunk_count(len as int) + 1,
        forall|k: int|
            0 <= k < chunk_count(len as int) ==> is_dump_chunk(#[trigger] r.steps@[k], emu.bus@.ram, start, len as int, k),
        r.steps@[chunk_count(len as int)] matches PanelStep::Run { address } && address@ == hex4_seq(start),
{
    let bus = &emu.bus;
    let mut steps: Vec<PanelStep> = Vec::new();
    let mut offset: u16 = 0;
    while offset < len
        invariant
            offset <= len,
            offset < len ==> offset as int == 16 * steps@.len(),
            offset == len ==> steps@.len() == chunk_count(len as int),
            forall|k: int| 0 <= k < steps@.len() ==> is_dump_chunk(#[trigger] steps@[k], bus@.ram, start, len as int, k),
        decreases len - offset,
    {
        let remaining = len - offset;
        let n: u16 = if remaining < 16 { remaining } else { 16 };
        let chunk = chunk_text(bus, start, offset, n);
        let mut address = String::new();
        push_hex4(&mut address, start.wrapping_add(offset));
        let ghost k = steps@.len() as int;
        let ghost old_steps = steps@;
        assert(offset as int == 16 * k);
        assert(address@ =~= hex4_seq(((start + 16 * k) % 65536) as u16));
        steps.push(PanelStep::Load { address, data: chunk });
        assert(is_dump_chunk(steps@[k], bus@.ram, start, len as int, k)) by {
            reveal(is_dump_chunk);
        }
        assert forall|j: int| 0 <= j < steps@.len() implies is_dump_chunk(#[trigger] steps@[j], bus@.ram, start, len as int, j) by {
            if j < k {
                assert(steps@[j] == old_steps[j]);
            }
        }
        offset = offset + n;
    }
    let mut run_address = String::new();
    push_hex4(&mut run_address, start);
    assert(run_address@ =~= hex4_seq(start));
    steps.push(PanelStep::Run { address: run_address });
    let mut name = "dump_".to_owned();
    push_hex4(&mut name, start);
    let mut description = "Memory dump from 0x".to_owned();
    push_hex4(&mut description, start);
    push_text(&mut description, ", ");
    push_decimal(&mut description, len as u64);
    push_text(&mut description, " bytes");
    PanelProgram { name, description, steps }
}


proof fn lemma_hex_char_digit(d: int)
    requires
        0 <= d < 16,
    ensures
        hex_digit_value(hex_char(d)) == Some(d),
        !is_white(hex_char(d)),
        hex_char(d) != '+' && hex_char(d) != '-' && hex_char(d) != 'x' && hex_char(d) != 'X',
        hex_char(d) != ' ',
{
    if d < 10 {
        assert(hex_char(d) == (48 + d) as char);
        assert((hex_char(d) as int) == 48 + d);
    } else {
        assert(hex_char(d) == (55 + d) as char);
        assert((hex_char(d) as int) == 55 + d);
    }
}

/// Two hex digits of a byte parse back to the byte.
proof fn lemma_hex8_of_hex2(b: u8)
    ensures
        hex8_result(hex2_seq(b)) == Ok::<int, Seq<char>>(b as int),
{
    let t = hex2_seq(b);
    let hi = b as int / 16;
    let lo = b as int % 16;
    lemma_hex_char_digit(hi);
    lemma_hex_char_digit(lo);
    assert(t.len() == 2 && t[0] == hex_char(hi) && t[1] == hex_char(lo));
    assert(trim_start_white(t) == t);
    assert(trim_end_white(t) == t);
    assert(strip_all_prefix(t, '0', 'x') == t);
    assert(strip_all_prefix(t, '0', 'X') == t);
    assert(hex_operand(t) == t);
    let t1 = t.drop_first();
    assert(t1.drop_first() =~= Seq::<char>::empty());
    assert(digits_value(t1.drop_first(), b as int, 255) == Ok::<int, ParseErrorKind>(b as int));
    assert(digits_value(t1, hi, 255) == Ok::<int, ParseErrorKind>(b as int));
    assert(digits_value(t, 0, 255) == Ok::<int, ParseErrorKind>(b as int));
}

/// Four hex digits of a word parse back to the word.
proof fn lemma_hex16_of_hex4(w: u16)
    ensures
        hex16_result(hex4_seq(w)) == Ok::<int, Seq<char>>(w as int),
{
    let hb = (w as int / 256) as u8;
    let lb = (w as int % 256) as u8;
    let t = hex4_seq(w);
    let d0 = hb as int / 16;
    let d1 = hb as int % 16;
    let d2 = lb as int / 16;
    let d3 = lb as int % 16;
    lemma_hex_char_digit(d0);
    lemma_hex_char_digit(d1);
    lemma_hex_char_digit(d2);
    lemma_hex_char_digit(d3);
    assert(t.len() == 4);
    assert(t[0] == hex_char(d0) && t[1] == hex_char(d1) && t[2] == hex_char(d2) && t[3] == hex_char(d3));
    assert(trim_start_white(t) == t);
    assert(trim_end_white(t) == t);
    assert(strip_all_prefix(t, '0', 'x') == t);
    assert(strip_all_prefix(t, '0', 'X') == t);
    assert(hex_operand(t) == t);
    let t1 = t.drop_first();
    let t2 = t1.drop_first();
    let t3 = t2.drop_first();
    assert(t3.drop_first() =~= Seq::<char>::empty());
    assert(w as int == ((d0 * 16 + d1) * 16 + d2) * 16 + d3);
    assert(digits_value(t3.drop_first(), w as int, 65535) == Ok::<int, ParseErrorKind>(w as int));
    assert(digits_value(t3, (d0 * 16 + d1) * 16 + d2, 65535) == Ok::<int, ParseErrorKind>(w as int));
    assert(digits_value(t2, d0 * 16 + d1, 65535) == Ok::<int, ParseErrorKind>(w as int));
    assert(digits_value(t1, d0, 65535) == Ok::<int, ParseErrorKind>(w as int));
    assert(digits_value(t, 0, 65535) == Ok::<int, ParseErrorKind>(w as int));
}


/// Layout of the joined text: byte `k` at positions `3k`, `3k + 1`, a space after each but the last.
proof fn lemma_hex_join_layout(bs: Seq<u8>)
    requires
        bs.len() >= 1,
    ensures
        hex_join(bs).len() == 3 * bs.len() - 1,
        forall|k: int|
            0 <= k < bs.len() ==> hex_join(bs).subrange(3 * k, 3 * k + 2) == hex2_seq(#[trigger] bs[k]),
        forall|k: int| 0 <= k < bs.len() - 1 ==> #[trigger] hex_join(bs)[3 * k + 2] == ' ',
    decreases bs.len(),
{
    reveal_strlit(" ");
    let s = hex_join(bs);
    let n = bs.len() as int;
    let last = bs.last();
    lemma_hex_char_digit(last as int / 16);
    lemma_hex_char_digit(last as int % 16);
    if n == 1 {
        assert(s == hex2_seq(bs[0]));
        assert(s.subrange(0, 2) =~= hex2_seq(bs[0]));
    } else {
        let init = bs.drop_last();
        lemma_hex_join_layout(init);
        let p = hex_join(init);
        assert(s == p + " "@ + hex2_seq(last));
        assert forall|k: int| 0 <= k < n implies s.subrange(3 * k, 3 * k + 2) == hex2_seq(#[trigger] bs[k]) by {
            if k < n - 1 {
                assert(init[k] == bs[k]);
                assert(p.subrange(3 * k, 3 * k + 2) == hex2_seq(init[k]));
                assert(s.subrange(3 * k, 3 * k + 2) =~= p.subrange(3 * k, 3 * k + 2));
            } else {
                assert(s.subrange(3 * k, 3 * k + 2) =~= hex2_seq(last));
            }
        }
        assert forall|k: int| 0 <= k < n - 1 implies #[trigger] s[3 * k + 2] == ' ' by {
            if k < n - 2 {
                assert(s[3 * k + 2] == p[3 * k + 2]);
            }
        }
    }
}

/// One token step of `hex_bytes_from` over a two-character token at `i`.
proof fn lemma_token_step(s: Seq<char>, i: int, acc: Seq<u8>, b: u8)
    requires
        0 <= i,
        i + 2 <= s.len(),
        !is_white(s[i]),
        !is_white(s[i + 1]),
        i + 2 == s.len() || is_white(s[i + 2]),
        hex8_result(s.subrange(i, i + 2)) == Ok::<int, Seq<char>>(b as int),
    ensures
        i + 2 == s.len() ==> hex_bytes_from(s, i, None, acc) == Ok::<Seq<u8>, Seq<char>>(acc.push(b)),
        i + 2 < s.len() ==> hex_bytes_from(s, i, None, acc) == hex_bytes_from(s, i + 3, None, acc.push(b)),
{
    assert(hex_bytes_from(s, i, None, acc) == hex_bytes_from(s, i + 1, Some(i), acc));
    assert(hex_bytes_from(s, i + 1, Some(i), acc) == hex_bytes_from(s, i + 2, Some(i), acc));
    if i + 2 == s.len() {
        assert(s.subrange(i, s.len() as int) == s.subrange(i, i + 2));
    }
}

/// Reading hex bytes back from the joined text, from token `k` on.
#[verifier::rlimit(40)]
proof fn lemma_hex_bytes_of_join_from(bs: Seq<u8>, k: int, acc: Seq<u8>)
    requires
        bs.len() >= 1,
        0 <= k < bs.len(),
    ensures
        hex_bytes_from(hex_join(bs), 3 * k, None, acc) == Ok::<Seq<u8>, Seq<char>>(
            acc + bs.subrange(k, bs.len() as int),
        ),
    decreases bs.len() - k,
{
    let s = hex_join(bs);
    let n = bs.len() as int;
    lemma_hex_join_layout(bs);
    lemma_hex8_of_hex2(bs[k]);
    let tok = s.subrange(3 * k, 3 * k + 2);
    assert(tok == hex2_seq(bs[k]));
    lemma_hex_char_digit(bs[k] as int / 16);
    lemma_hex_char_digit(bs[k] as int % 16);
    assert(s[3 * k] == tok[0] && s[3 * k + 1] == tok[1]);
    let acc2 = acc.push(bs[k]);
    if k < n - 1 {
        assert(s[3 * k + 2] == ' ');
        lemma_token_step(s, 3 * k, acc, bs[k]);
        lemma_hex_bytes_of_join_from(bs, k + 1, acc2);
        assert(acc2 + bs.subrange(k + 1, n) =~= acc + bs.subrange(k, n));
    } else {
        lemma_token_step(s, 3 * k, acc, bs[k]);
        assert(acc2 =~= acc + bs.subrange(k, n));
    }
}

/// Hex bytes joined with single spaces read back as the same bytes.
pub proof fn lemma_hex_bytes_of_join(bs: Seq<u8>)
    ensures
        hex_bytes_from(hex_join(bs), 0, None, Seq::empty()) == Ok::<Seq<u8>, Seq<char>>(bs),
{
    if bs.len() == 0 {
        assert(hex_join(bs) == Seq::<char>::empty());
        assert(bs =~= Seq::<u8>::empty());
        assert(hex_bytes_from(hex_join(bs), 0, None, Seq::empty()) == Ok::<Seq<u8>, Seq<char>>(Seq::<u8>::empty()));
    } else {
        lemma_hex_bytes_of_join_from(bs, 0, Seq::<u8>::empty());
        assert(Seq::<u8>::empty() + bs.subrange(0, bs.len() as int) =~= bs);
        assert(hex_bytes_from(hex_join(bs), 3 * 0int, None, Seq::<u8>::empty()) == Ok::<Seq<u8>, Seq<char>>(bs));
    }
}


/// Address `j` bytes after `a`, wrapping at 0xFFFF.
pub open spec fn wrap_add(a: u16, j: int) -> int {
    (a + j) % 65536
}

/// Address of chunk `c` of a dump that begins at `start`.
pub open spec fn chunk_address(start: u16, c: int) -> u16 {
    ((start + 16 * c) % 65536) as u16
}

proof fn lemma_chunk_bounds(len: int, c: int)
    requires
        0 <= len,
        0 <= c < chunk_count(len),
    ensures
        16 * c < len,
        0 < chunk_size(len, c),
        16 * c + chunk_size(len, c) <= len,
{
}

proof fn lemma_chunk_count_covers(len: int)
    requires
        0 <= len,
    ensures
        len <= 16 * chunk_count(len),
        0 <= chunk_count(len),
{
}

/// Offsets inside chunk `c` land at the chunk's address plus the offset into
/// the chunk; earlier offsets lie outside the chunk's window.
proof fn lemma_chunk_offsets(start: u16, c: int, size: int, j: int)
    requires
        0 <= c,
        0 < size,
        16 * c + size <= 65535,
        0 <= j < 16 * c + size,
    ensures
        j < 16 * c ==> (wrap_add(start, j) - chunk_address(start, c)) % 65536 >= size,
        j >= 16 * c ==> (chunk_address(start, c) + (j - 16 * c)) % 65536 == wrap_add(start, j),
{
    let x = start + 16 * c;
    let y = start + j;
    assert(x % 65536 == x || x % 65536 == x - 65536) by (nonlinear_arith)
        requires
            0 <= x < 131072,
    ;
    assert(y % 65536 == y || y % 65536 == y - 65536) by (nonlinear_arith)
        requires
            0 <= y < 131072,
    ;
    let a = chunk_address(start, c) as int;
    assert(a == x % 65536);
    let w = wrap_add(start, j);
    if j >= 16 * c {
        let z = a + (j - 16 * c);
        assert(z % 65536 == z || z % 65536 == z - 65536) by (nonlinear_arith)
            requires
                0 <= z < 131072,
        ;
    } else {
        let z = w - a;
        assert(z % 65536 == z || z % 65536 == z + 65536) by (nonlinear_arith)
            requires
                -65536 <= z < 65536,
        ;
    }
}

/// Loading chunk `c` keeps the bytes of the earlier chunks in place and
/// brings back those of chunk `c`.
proof fn lemma_chunk_restores(prev: Seq<u8>, ram: Seq<u8>, start: u16, len: int, c: int)
    requires
        prev.len() == 65536,
        ram.len() == 65536,
        len <= 65535,
        0 <= c < chunk_count(len),
        forall|j: int| 0 <= j < len && j < 16 * c ==> prev[#[trigger] wrap_add(start, j)] == ram[wrap_add(start, j)],
    ensures
        ({
            let r = spec_load(prev, chunk_address(start, c), dump_bytes(ram, start, 16 * c, chunk_size(len, c)));
            &&& r.len() == 65536
            &&& forall|j: int| 0 <= j < len && j < 16 * (c + 1) ==> r[#[trigger] wrap_add(start, j)] == ram[wrap_add(start, j)]
        }),
{
    lemma_chunk_bounds(len, c);
    let size = chunk_size(len, c);
    let a = chunk_address(start, c);
    let bytes = dump_bytes(ram, start, 16 * c, size);
    crate::bus::lemma_load_read_back(prev, a, bytes);
    let r = spec_load(prev, a, bytes);
    assert forall|j: int| 0 <= j < len && j < 16 * (c + 1) implies r[#[trigger] wrap_add(start, j)] == ram[wrap_add(start, j)] by {
        lemma_chunk_offsets(start, c, size, j);
        if j < 16 * c {
            assert(r[wrap_add(start, j)] == prev[wrap_add(start, j)]);
        } else {
            let i = j - 16 * c;
            assert(bytes[i] == ram[wrap_add(start, j)]);
            assert(r[(a + i) % 65536] == bytes[i]);
        }
    }
}

/// A dump's LOAD step writes its chunk into memory and touches nothing else.
proof fn lemma_load_chunk_step(prev: PanelMachine, step: PanelStep, ram: Seq<u8>, start: u16, len: int, c: int)
    requires
        is_dump_chunk(step, ram, start, len, c),
    ensures
        spec_panel_step(prev, step) == (PanelMachine {
            bus: BusView {
                ram: spec_load(prev.bus.ram, chunk_address(start, c), dump_bytes(ram, start, 16 * c, chunk_size(len, c))),
                ..prev.bus
            },
            ..prev
        }),
{
    reveal(is_dump_chunk);
    reveal(spec_panel_step);
    lemma_hex16_of_hex4(chunk_address(start, c));
    lemma_hex_bytes_of_join(dump_bytes(ram, start, 16 * c, chunk_size(len, c)));
}

proof fn lemma_dump_chunks(ram: Seq<u8>, start: u16, len: u16, steps: Seq<PanelStep>, m: PanelMachine, k: int)
    requires
        ram.len() == 65536,
        m.bus.ram.len() == 65536,
        0 <= k <= chunk_count(len as int),
        steps.len() >= chunk_count(len as int),
        forall|c: int| 0 <= c < chunk_count(len as int) ==> is_dump_chunk(#[trigger] steps[c], ram, start, len as int, c),
    ensures
        ({
            let r = spec_run_program(m, steps.subrange(0, k));
            &&& r == (PanelMachine { bus: BusView { ram: r.bus.ram, ..m.bus }, ..m })
            &&& r.bus.ram.len() == 65536
            &&& forall|j: int| 0 <= j < len && j < 16 * k ==> r.bus.ram[#[trigger] wrap_add(start, j)] == ram[wrap_add(start, j)]
        }),
    decreases k,
{
    if k == 0 {
        assert(steps.subrange(0, 0) =~= Seq::<PanelStep>::empty());
    } else {
        let c = k - 1;
        lemma_dump_chunks(ram, start, len, steps, m, c);
        let sub = steps.subrange(0, k);
        assert(sub.drop_last() =~= steps.subrange(0, c));
        let prev = spec_run_program(m, steps.subrange(0, c));
        assert(spec_run_program(m, sub) == spec_panel_step(prev, steps[c]));
        assert(is_dump_chunk(steps[c], ram, start, len as int, c));
        lemma_load_chunk_step(prev, steps[c], ram, start, len as int, c);
        lemma_chunk_restores(prev.bus.ram, ram, start, len as int, c);
    }
}

/// A RUN step is a press of RUN/STOP with the address switches set.
#[verifier::rlimit(40)]
proof fn lemma_run_step_is_press(prev: PanelMachine, step: PanelStep, start: u16)
    requires
        step matches PanelStep::Run { address } && address@ == hex4_seq(start),
    ensures
        spec_panel_step(prev, step) == spec_press(
            PanelMachine { panel: spec_set_address(prev.panel, start), ..prev },
            PanelSwitch::RunStop,
        ),
{
    lemma_hex16_of_hex4(start);
    match step {
        PanelStep::Run { address } => {
            assert(hex16_or_zero(address@) == start);
            reveal(spec_panel_step);
        },
        _ => {},
    }
}

/// Pressing RUN/STOP with no other press waiting.
proof fn lemma_press_run_stop(m: PanelMachine)
    requires
        m.panel.pending.len() == 0,
    ensures
        ({
            let r = spec_press(m, PanelSwitch::RunStop);
            &&& r.bus.ram == m.bus.ram
            &&& r.panel.address_switches == m.panel.address_switches
            &&& m.panel.run_state == RunState::Stopped ==> r.cpu.pc == m.panel.address_switches
                && r.panel.run_state == RunState::Running
        }),
{
    let pend = m.panel.pending.push(PanelSwitch::RunStop);
    assert(pend.drop_last() =~= Seq::<PanelSwitch>::empty());
    let mp = PanelMachine { panel: PanelView { pending: pend, ..m.panel }, ..m };
    let s0 = action_start(mp.panel, mp.bus.ram, mp.cpu);
    assert(spec_actions(s0, pend.drop_last()) == s0);
    assert(spec_actions(s0, pend) == spec_action(s0, PanelSwitch::RunStop));
}

/// The closing RUN step at the dump's start address.
proof fn lemma_run_at_start(prev: PanelMachine, step: PanelStep, start: u16)
    requires
        prev.panel.pending.len() == 0,
        step matches PanelStep::Run { address } && address@ == hex4_seq(start),
    ensures
        ({
            let r = spec_panel_step(prev, step);
            &&& r.bus.ram == prev.bus.ram
            &&& r.panel.address_switches == start
            &&& prev.panel.run_state == RunState::Stopped ==> r.cpu.pc == start && r.panel.run_state == RunState::Running
        }),
{
    lemma_run_step_is_press(prev, step, start);
    let m1 = PanelMachine { panel: spec_set_address(prev.panel, start), ..prev };
    lemma_press_run_stop(m1);
}

/// Dumping memory to a panel program and running that program restores the
/// dumped bytes: on a machine with no switch press waiting, every byte of
/// the region is back in place afterwards, the address switches point at
/// the start, a stopped machine is left running from the start, and the
/// program's start address (as `find_program_start` reads it) is the start.
pub proof fn lemma_dump_program_restores_memory(
    ram: Seq<u8>,
    start: u16,
    len: u16,
    steps: Seq<PanelStep>,
    m: PanelMachine,
)
    requires
        ram.len() == 65536,
        m.bus.ram.len() == 65536,
        m.panel.pending.len() == 0,
        steps.len() == chunk_count(len as int) + 1,
        forall|c: int| 0 <= c < chunk_count(len as int) ==> is_dump_chunk(#[trigger] steps[c], ram, start, len as int, c),
        steps[chunk_count(len as int)] matches PanelStep::Run { address } && address@ == hex4_seq(start),
    ensures
        ({
            let r = spec_run_program(m, steps);
            &&& forall|j: int| 0 <= j < len ==> r.bus.ram[#[trigger] wrap_add(start, j)] == ram[wrap_add(start, j)]
            &&& r.panel.address_switches == start
            &&& m.panel.run_state == RunState::Stopped ==> r.cpu.pc == start && r.panel.run_state
                == RunState::Running
            &&& program_start(steps) == Some(start)
        }),
{
    let n = chunk_count(len as int);
    lemma_hex16_of_hex4(start);
    assert(hex16_ok(hex4_seq(start)) == Some(start));
    if n > 0 {
        assert(is_dump_chunk(steps[0], ram, start, len as int, 0));
        reveal(is_dump_chunk);
        let z: int = 0;
        assert((start + 16 * z) % 65536 == start as int);
        assert(((start + 16 * z) % 65536) as u16 == start);
        assert(hex4_seq(((start + 16 * z) % 65536) as u16) == hex4_seq(start));
        match steps[0] {
            PanelStep::Load { address, data } => {
                assert(address@ == hex4_seq(((start + 16 * z) % 65536) as u16));
                assert(address@ == hex4_seq(start));
                assert(hex16_ok(address@) == Some(start));
            },
            _ => {
                assert(false);
            },
        }
    } else {
        assert(steps[0] matches PanelStep::Run { address } && address@ == hex4_seq(start));
    }
    assert(program_start(steps) == Some(start));
    lemma_chunk_count_covers(len as int);
    lemma_dump_chunks(ram, start, len, steps, m, n);
    let prev = spec_run_program(m, steps.subrange(0, n));
    assert(steps.drop_last() =~= steps.subrange(0, n));
    assert(spec_run_program(m, steps) == spec_panel_step(prev, steps[n]));
    lemma_run_at_start(prev, steps[n], start);
}

/// `c` is a hexadecimal digit: '0'-'9', 'a'-'f' or 'A'-'F'.
pub open spec fn is_hex_char(c: char) -> bool {
    ||| '0' as int <= c as int <= '9' as int
    ||| 'a' as int <= c as int <= 'f' as int
    ||| 'A' as int <= c as int <= 'F' as int
}

/// The value of hexadecimal digit `c`: '0'-'9' are 0-9, 'a'-'f' and 'A'-'F'
/// are 10-15.
pub open spec fn hex_char_value(c: char) -> int {
    if '0' as int <= c as int <= '9' as int {
        c as int - '0' as int
    } else if 'a' as int <= c as int <= 'f' as int {
        c as int - 'a' as int + 10
    } else {
        c as int - 'A' as int + 10
    }
}

/// Every hexadecimal digit, in either case, has its standard value, and no
/// other character is a digit.
pub proof fn lemma_hex_digit_values(c: char)
    ensures
        is_hex_char(c) ==> hex_digit_value(c) == Some(hex_char_value(c)),
        !is_hex_char(c) ==> hex_digit_value(c) is None,
{
}

/// Any two hexadecimal digits, in either case, parse as a byte (and as an
/// address) to 16 times the first digit's value plus the second's.
pub proof fn lemma_parse_two_hex_digits(c1: char, c2: char)
    requires
        is_hex_char(c1),
        is_hex_char(c2),
    ensures
        hex8_result(seq![c1, c2]) == Ok::<int, Seq<char>>(16 * hex_char_value(c1) + hex_char_value(c2)),
        hex16_result(seq![c1, c2]) == Ok::<int, Seq<char>>(16 * hex_char_value(c1) + hex_char_value(c2)),
{
    let t = seq![c1, c2];
    let v = 16 * hex_char_value(c1) + hex_char_value(c2);
    lemma_hex_digit_values(c1);
    lemma_hex_digit_values(c2);
    assert(!is_white(c1) && !is_white(c2));
    assert(trim_start_white(t) == t);
    assert(trim_end_white(t) == t);
    assert(c2 != 'x' && c2 != 'X');
    assert(strip_all_prefix(t, '0', 'x') == t);
    assert(strip_all_prefix(t, '0', 'X') == t);
    assert(hex_operand(t) == t);
    let t1 = t.drop_first();
    assert(t1.drop_first() =~= Seq::<char>::empty());
    assert(c1 != '+' && c1 != '-');
    assert(digits_value(t1.drop_first(), v, 255) == Ok::<int, ParseErrorKind>(v));
    assert(digits_value(t1, hex_char_value(c1), 255) == Ok::<int, ParseErrorKind>(v));
    assert(digits_value(t, 0, 255) == Ok::<int, ParseErrorKind>(v));
    assert(digits_value(t1.drop_first(), v, 65535) == Ok::<int, ParseErrorKind>(v));
    assert(digits_value(t1, hex_char_value(c1), 65535) == Ok::<int, ParseErrorKind>(v));
    assert(digits_value(t, 0, 65535) == Ok::<int, ParseErrorKind>(v));
}

} // verus!
