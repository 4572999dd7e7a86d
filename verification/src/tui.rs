//! Terminal user interface: the command line of the Ctrl+K modal.
use vstd::prelude::*;
use crate::program::{
    chars_of, from_hex_radix, hex_operand_bounds_trim, parse_hex_digits_in, strip_all_prefix,
    trim_end_white, trim_start_white, PanelProgram, execute_panel_program, find_program_start, program_start,
};
use crate::disk::DiskImage;
use crate::emulator::{CoreRegisters, Imsai8080};
use crate::text::{dec_seq, hex2_seq, hex4_seq, push_decimal, push_hex2, push_hex4, push_text};

verus! {

/// Result of executing a TUI command.
pub struct CommandResult {
    /// Close the modal and return to the main loop?
    pub close: bool,
    /// Did a run-type command (load/program/go) execute?
    pub ran: bool,
    /// Status message to display.
    pub message: String,
}

/// A command typed at the TUI prompt.
#[derive(Debug, Clone, PartialEq, Eq)]
pub enum TuiCommand {
    /// Nothing but white space was typed.
    Empty,
    /// `help` or `?`.
    Help,
    /// `load <file> [addr]`: raw binary at `addr` (0 when absent or not hex).
    Load { path: String, addr: u16 },
    /// `program <file.json>`: a front panel program.
    Program { path: String },
    /// `mount <file>`: disk image into drive A.
    Mount { path: String },
    /// `go` or `run`: resume execution.
    Go,
    /// `reset`: cold reset.
    Reset,
    /// `quit`.
    Quit,
    /// `load`, `program` or `mount` without a file name.
    Usage { command: String },
    /// Anything else.
    Unknown,
}

/// Position of the first `' '` in `s` at or after `from`.
pub open spec fn space_from(s: Seq<char>, from: int) -> Option<int>
    decreases s.len() - from,
{
    if from < 0 || from >= s.len() {
        None
    } else if s[from] == ' ' {
        Some(from)
    } else {
        space_from(s, from + 1)
    }
}

/// The up to three parts of `s` split at its first two spaces.
pub open spec fn split3(s: Seq<char>) -> Seq<Seq<char>> {
    match space_from(s, 0) {
        None => seq![s],
        Some(i) => match space_from(s, i + 1) {
            None => seq![s.subrange(0, i), s.subrange(i + 1, s.len() as int)],
            Some(j) => seq![
                s.subrange(0, i),
                s.subrange(i + 1, j),
                s.subrange(j + 1, s.len() as int),
            ],
        },
    }
}

/// ASCII letters folded to lower case.
pub open spec fn fold_case(c: char) -> char {
    if 'A' <= c <= 'Z' {
        ((c as int) + 32) as char
    } else {
        c
    }
}

/// `w` equals the lower-case word `word` when its ASCII letters are folded to
/// lower case (no command word has a letter whose upper case lies outside ASCII).
pub open spec fn word_is(w: Seq<char>, word: Seq<char>) -> bool {
    w.len() == word.len() && forall|i: int| 0 <= i < w.len() ==> fold_case(#[trigger] w[i]) == word[i]
}

/// Address of a `load` command: the third part with leading "0x" then "0X"
/// prefixes removed, read as hex; 0 when absent or not a number.
pub open spec fn load_addr_of(parts: Seq<Seq<char>>) -> u16 {
    if parts.len() > 2 {
        match from_hex_radix(strip_all_prefix(strip_all_prefix(parts[2], '0', 'x'), '0', 'X'), 65535) {
            Ok(v) => v as u16,
            Err(_) => 0,
        }
    } else {
        0
    }
}

/// What a typed line means: it is trimmed, split at its first two spaces,
/// and the first part is matched case-insensitively against the command words.
pub open spec fn command_meaning(line: Seq<char>) -> TuiCommandView {
    let t = trim_end_white(trim_start_white(line));
    let parts = split3(t);
    let w = parts[0];
    if t.len() == 0 {
        TuiCommandView::Empty
    } else if word_is(w, "help"@) || word_is(w, "?"@) {
        TuiCommandView::Help
    } else if word_is(w, "load"@) {
        if parts.len() > 1 {
            TuiCommandView::Load { path: parts[1], addr: load_addr_of(parts) }
        } else {
            TuiCommandView::Usage { command: "load"@ }
        }
    } else if word_is(w, "program"@) {
        if parts.len() > 1 {
            TuiCommandView::Program { path: parts[1] }
        } else {
            TuiCommandView::Usage { command: "program"@ }
        }
    } else if word_is(w, "mount"@) {
        if parts.len() > 1 {
            TuiCommandView::Mount { path: parts[1] }
        } else {
            TuiCommandView::Usage { command: "mount"@ }
        }
    } else if word_is(w, "go"@) || word_is(w, "run"@) {
        TuiCommandView::Go
    } else if word_is(w, "reset"@) {
        TuiCommandView::Reset
    } else if word_is(w, "quit"@) {
        TuiCommandView::Quit
    } else {
        TuiCommandView::Unknown
    }
}

/// A command with its strings as character sequences.
pub enum TuiCommandView {
    Empty,
    Help,
    Load { path: Seq<char>, addr: u16 },
    Program { path: Seq<char> },
    Mount { path: Seq<char> },
    Go,
    Reset,
    Quit,
    Usage { command: Seq<char> },
    Unknown,
}

impl TuiCommand {
    /// The command with its strings as character sequences.
    pub open spec fn view_of(self) -> TuiCommandView {
        match self {
            TuiCommand::Empty => TuiCommandView::Empty,
            TuiCommand::Help => TuiCommandView::Help,
            TuiCommand::Load { path, addr } => TuiCommandView::Load { path: path@, addr },
            TuiCommand::Program { path } => TuiCommandView::Program { path: path@ },
            TuiCommand::Mount { path } => TuiCommandView::Mount { path: path@ },
            TuiCommand::Go => TuiCommandView::Go,
            TuiCommand::Reset => TuiCommandView::Reset,
            TuiCommand::Quit => TuiCommandView::Quit,
            TuiCommand::Usage { command } => TuiCommandView::Usage { command: command@ },
            TuiCommand::Unknown => TuiCommandView::Unknown,
        }
    }
}

fn string_of(v: &Vec<char>, lo: usize, hi: usize) -> (r: String)
    requires
        lo <= hi <= v@.len(),
    ensures
        r@ == v@.subrange(lo as int, hi as int),
{
    let mut s = String::new();
    let mut k = lo;
    while k < hi
        invariant
            lo <= k <= hi <= v@.len(),
            s@ == v@.subrange(lo as int, k as int),
        decreases hi - k,
    {
        s.push(v[k]);
        assert(v@.subrange(lo as int, k + 1) =~= v@.subrange(lo as int, k as int).push(v@[k as int]));
        k = k + 1;
    }
    s
}

fn find_space(v: &Vec<char>, from: usize, hi: usize) -> (r: Option<usize>)
    requires
        from <= hi <= v@.len(),
    ensures
        match space_from(v@.subrange(0, hi as int), from as int) {
            Some(i) => r == Some(i as usize) && from <= i < hi,
            None => r is None,
        },
{
    let ghost s = v@.subrange(0, hi as int);
    let mut i = from;
    while i < hi
        invariant
            from <= i <= hi <= v@.len(),
            s == v@.subrange(0, hi as int),
            space_from(s, from as int) == space_from(s, i as int),
        decreases hi - i,
    {
        if v[i] == ' ' {
            return Some(i);
        }
        i = i + 1;
    }
    None
}

fn word_matches(v: &Vec<char>, lo: usize, hi: usize, word: &str) -> (r: bool)
    requires
        lo <= hi <= v@.len(),
    ensures
        r == word_is(v@.subrange(lo as int, hi as int), word@),
{
    let ghost w = v@.subrange(lo as int, hi as int);
    let n = word.unicode_len();
    if hi - lo != n {
        return false;
    }
    let mut i: usize = 0;
    while i < n
        invariant
            n == word@.len(),
            hi - lo == n,
            lo <= hi <= v@.len(),
            w == v@.subrange(lo as int, hi as int),
            i <= n,
            forall|j: int| 0 <= j < i ==> fold_case(#[trigger] w[j]) == word@[j],
        decreases n - i,
    {
        let c = v[lo + i];
        let folded = if 'A' <= c && c <= 'Z' {
            ((c as u32) + 32) as u8 as char
        } else {
            c
        };
        assert(w[i as int] == c);
        if folded != word.get_char(i) {
            return false;
        }
        i = i + 1;
    }
    true
}

/// Interpret a line typed at the TUI prompt.
pub fn parse_command(input: &str) -> (r: TuiCommand)
    ensures
        r.view_of() == command_meaning(input@),
{
    let v = chars_of(input);
    assert(v@.subrange(0, v@.len() as int) =~= input@);
    let (lo, hi) = hex_operand_bounds_trim(&v, 0, v.len());
    let ghost t = v@.subrange(lo as int, hi as int);
    if lo == hi {
        return TuiCommand::Empty;
    }
    let first = find_space(&v, lo, hi);
    let ghost sub = v@.subrange(0, hi as int);
    assert forall|k: int| lo <= k <= hi implies space_from(sub, k) == match space_from(t, k - lo) {
        Some(i) => Some(i + lo),
        None => None::<int>,
    } by {
        lemma_space_shift(v@, lo as int, hi as int, k);
    }
    let (w_end, second) = match first {
        None => (hi, None),
        Some(i) => (i, find_space(&v, i + 1, hi)),
    };
    proof {
        match space_from(t, 0) {
            Some(i) => {
                assert(t.subrange(0, i) =~= v@.subrange(lo as int, lo + i));
                match space_from(t, i + 1) {
                    Some(j) => {
                        assert(t.subrange(i + 1, j) =~= v@.subrange(lo + i + 1, lo + j));
                        assert(t.subrange(j + 1, t.len() as int) =~= v@.subrange(lo + j + 1, hi as int));
                    },
                    None => {
                        assert(t.subrange(i + 1, t.len() as int) =~= v@.subrange(lo + i + 1, hi as int));
                    },
                }
            },
            None => {},
        }
    }
    let path_range: Option<(usize, usize)> = match first {
        None => None,
        Some(i) => match second {
            None => Some((i + 1, hi)),
            Some(j) => Some((i + 1, j)),
        },
    };
    if word_matches(&v, lo, w_end, "help") || word_matches(&v, lo, w_end, "?") {
        TuiCommand::Help
    } else if word_matches(&v, lo, w_end, "load") {
        match path_range {
            None => TuiCommand::Usage { command: "load".to_owned() },
            Some((a, b)) => {
                let path = string_of(&v, a, b);
                let addr = match second {
                    None => 0,
                    Some(j) => {
                        let rest = chars_of_range(&v, j + 1, hi);
                        match parse_hex_digits_in(&rest) {
                            Some(x) => x,
                            None => 0,
                        }
                    },
                };
                TuiCommand::Load { path, addr }
            },
        }
    } else if word_matches(&v, lo, w_end, "program") {
        match path_range {
            None => TuiCommand::Usage { command: "program".to_owned() },
            Some((a, b)) => TuiCommand::Program { path: string_of(&v, a, b) },
        }
    } else if word_matches(&v, lo, w_end, "mount") {
        match path_range {
            None => TuiCommand::Usage { command: "mount".to_owned() },
            Some((a, b)) => TuiCommand::Mount { path: string_of(&v, a, b) },
        }
    } else if word_matches(&v, lo, w_end, "go") || word_matches(&v, lo, w_end, "run") {
        TuiCommand::Go
    } else if word_matches(&v, lo, w_end, "reset") {
        TuiCommand::Reset
    } else if word_matches(&v, lo, w_end, "quit") {
        TuiCommand::Quit
    } else {
        TuiCommand::Unknown
    }
}

/// The characters `v[lo..hi]` as a vector.
fn chars_of_range(v: &Vec<char>, lo: usize, hi: usize) -> (r: Vec<char>)
    requires
        lo <= hi <= v@.len(),
    ensures
        r@ == v@.subrange(lo as int, hi as int),
{
    let mut out: Vec<char> = Vec::new();
    let mut k = lo;
    while k < hi
        invariant
            lo <= k <= hi <= v@.len(),
            out@ == v@.subrange(lo as int, k as int),
        decreases hi - k,
    {
        out.push(v[k]);
        assert(out@ =~= v@.subrange(lo as int, k + 1));
        k = k + 1;
    }
    out
}

/// Searching a suffix for a space is searching the whole prefix from the
/// same place, shifted.
proof fn lemma_space_shift(s: Seq<char>, lo: int, hi: int, k: int)
    requires
        0 <= lo <= k <= hi <= s.len(),
    ensures
        space_from(s.subrange(0, hi), k) == match space_from(s.subrange(lo, hi), k - lo) {
            Some(i) => Some(i + lo),
            None => None::<int>,
        },
    decreases hi - k,
{
    if k < hi {
        assert(s.subrange(0, hi)[k] == s.subrange(lo, hi)[k - lo]);
        lemma_space_shift(s, lo, hi, k + 1);
    }
}

/// Which content to show on the bottom row of the TUI.
#[derive(Copy, Clone, Debug, PartialEq, Eq, Structural)]
pub enum BottomMode {
    Status,
    Prompt,
}

/// The row where the status/prompt bar anchors: the last one (at least 1).
pub fn status_anchor_row(term_rows: u16) -> (r: u16)
    ensures
        r == if term_rows < 1 { 1 } else { term_rows },
{
    if term_rows < 1 { 1 } else { term_rows }
}

/// The first `n` characters of `s` (all of it when shorter).
pub open spec fn take_chars(s: Seq<char>, n: int) -> Seq<char> {
    if s.len() <= n { s } else if n <= 0 { Seq::empty() } else { s.subrange(0, n) }
}

/// `HALT`, `RUN ` or `STOP`.
pub open spec fn state_word(halted: bool, running: bool) -> Seq<char> {
    if halted { "HALT"@ } else if running { "RUN "@ } else { "STOP"@ }
}

/// The status bar: run state, registers, program name and the keys.
pub open spec fn status_text(regs: CoreRegisters, running: bool, name: Seq<char>) -> Seq<char> {
    " "@ + state_word(regs.halt, running) + " PC:"@ + hex4_seq(regs.pc) + " SP:"@ + hex4_seq(regs.sp) + " A:"@
        + hex2_seq(regs.a) + " B:"@ + hex2_seq(regs.b) + " C:"@ + hex2_seq(regs.c) + " D:"@ + hex2_seq(regs.d) + " E:"@
        + hex2_seq(regs.e) + " H:"@ + hex2_seq(regs.h) + " L:"@ + hex2_seq(regs.l) + "  "@ + name
        + "  F5=run/stop  Ctrl+K=cmd  Ctrl+D=exit "@
}

/// Cursor to `row`, column 1, and clear the line.
pub open spec fn goto_clear(row: int) -> Seq<char> {
    "\x1B["@ + dec_seq(row as nat) + ";1H\x1B[2K"@
}

/// The bottom row as terminal output: the status bar in reverse video, or
/// the prompt with the last message on the row above.
pub open spec fn bottom_row_text(
    regs: CoreRegisters,
    name: Seq<char>,
    mode: BottomMode,
    running: bool,
    prompt_buf: Seq<char>,
    last_message: Option<Seq<char>>,
    cols: u16,
    rows: u16,
) -> Seq<char> {
    let anchor: int = if rows < 1 { 1 } else { rows as int };
    match mode {
        BottomMode::Status => goto_clear(anchor) + "\x1B[7m"@ + take_chars(status_text(regs, running, name), cols as int)
            + "\x1B[0m"@,
        BottomMode::Prompt => {
            let message_row: int = if anchor - 1 < 1 { 1 } else { anchor - 1 };
            (match last_message {
                Some(m) => goto_clear(message_row) + take_chars(m, cols as int),
                None => Seq::empty(),
            }) + goto_clear(anchor) + take_chars("> "@ + prompt_buf, if cols < 1 { 0 } else { cols - 1 })
        },
    }
}

/// Append the first `n` characters of `t`.
fn push_prefix(out: &mut String, t: &str, n: usize)
    ensures
        final(out)@ == old(out)@ + take_chars(t@, n as int),
{
    let len = t.unicode_len();
    let stop = if len < n { len } else { n };
    let mut i: usize = 0;
    while i < stop
        invariant
            len == t@.len(),
            stop <= len,
            i <= stop,
            out@ == old(out)@ + t@.subrange(0, i as int),
        decreases stop - i,
    {
        out.push(t.get_char(i));
        assert(t@.subrange(0, i + 1) =~= t@.subrange(0, i as int).push(t@[i as int]));
        i = i + 1;
    }
    assert(t@.subrange(0, stop as int) =~= take_chars(t@, n as int));
}

/// Append the cursor move to `row`, column 1, and a line clear.
fn push_goto_clear(out: &mut String, row: u16)
    ensures
        final(out)@ == old(out)@ + goto_clear(row as int),
{
    push_text(out, "\x1B[");
    push_decimal(out, row as u64);
    push_text(out, ";1H\x1B[2K");
    assert(final(out)@ =~= old(out)@ + goto_clear(row as int));
}

/// The status bar text.
fn status_string(regs: &CoreRegisters, running: bool, name: &str) -> (r: String)
    ensures
        r@ == status_text(*regs, running, name@),
{
    let mut s = String::new();
    push_text(&mut s, " ");
    if regs.halt {
        push_text(&mut s, "HALT");
    } else if running {
        push_text(&mut s, "RUN ");
    } else {
        push_text(&mut s, "STOP");
    }
    push_text(&mut s, " PC:");
    push_hex4(&mut s, regs.pc);
    push_text(&mut s, " SP:");
    push_hex4(&mut s, regs.sp);
    push_text(&mut s, " A:");
    push_hex2(&mut s, regs.a);
    push_text(&mut s, " B:");
    push_hex2(&mut s, regs.b);
    push_text(&mut s, " C:");
    push_hex2(&mut s, regs.c);
    push_text(&mut s, " D:");
    push_hex2(&mut s, regs.d);
    push_text(&mut s, " E:");
    push_hex2(&mut s, regs.e);
    push_text(&mut s, " H:");
    push_hex2(&mut s, regs.h);
    push_text(&mut s, " L:");
    push_hex2(&mut s, regs.l);
    push_text(&mut s, "  ");
    push_text(&mut s, name);
    push_text(&mut s, "  F5=run/stop  Ctrl+K=cmd  Ctrl+D=exit ");
    assert(s@ =~= status_text(*regs, running, name@));
    s
}

/// The bottom row of the TUI as terminal output, for a terminal of
/// `term_cols` by `term_rows`: the status bar, or the command prompt with
/// the last message above it.
pub fn render_bottom_row(
    regs: &CoreRegisters,
    program_name: &str,
    mode: BottomMode,
    running: bool,
    prompt_buf: &str,
    last_message: Option<&str>,
    term_cols: u16,
    term_rows: u16,
) -> (r: String)
    ensures
        r@ == bottom_row_text(
            *regs,
            program_name@,
            mode,
            running,
            prompt_buf@,
            match last_message {
                Some(m) => Some(m@),
                None => None,
            },
            term_cols,
            term_rows,
        ),
{
    let anchor = status_anchor_row(term_rows);
    let mut out = String::new();
    match mode {
        BottomMode::Status => {
            let status = status_string(regs, running, program_name);
            push_goto_clear(&mut out, anchor);
            push_text(&mut out, "\x1B[7m");
            push_prefix(&mut out, status.as_str(), term_cols as usize);
            push_text(&mut out, "\x1B[0m");
        },
        BottomMode::Prompt => {
            let message_row: u16 = if anchor - 1 < 1 { 1 } else { anchor - 1 };
            match last_message {
                Some(m) => {
                    push_goto_clear(&mut out, message_row);
                    push_prefix(&mut out, m, term_cols as usize);
                },
                None => {},
            }
            let mut line = String::new();
            push_text(&mut line, "> ");
            push_text(&mut line, prompt_buf);
            push_goto_clear(&mut out, anchor);
            let width: usize = if term_cols < 1 { 0 } else { (term_cols - 1) as usize };
            push_prefix(&mut out, line.as_str(), width);
        },
    }
    out
}

/// `s` without its trailing line feeds.
pub open spec fn trim_end_newlines(s: Seq<char>) -> Seq<char>
    decreases s.len(),
{
    if s.len() > 0 && s.last() == '\n' { trim_end_newlines(s.drop_last()) } else { s }
}

/// A line without the carriage return of a `\r\n` ending.
pub open spec fn strip_cr(l: Seq<char>) -> Seq<char> {
    if l.len() > 0 && l.last() == '\r' { l.drop_last() } else { l }
}

/// Position of the first line feed of `s` at or after `from`.
pub open spec fn newline_from(s: Seq<char>, from: int) -> Option<int>
    decreases s.len() - from,
{
    if from < 0 || from >= s.len() {
        None
    } else if s[from] == '\n' {
        Some(from)
    } else {
        newline_from(s, from + 1)
    }
}

/// The lines of `s` as `str::lines` gives them: split at each line feed,
/// a carriage return before it dropped, no empty line after a final feed.
pub open spec fn text_lines(s: Seq<char>) -> Seq<Seq<char>>
    decreases s.len(),
{
    if s.len() == 0 {
        Seq::empty()
    } else {
        match newline_from(s, 0) {
            None => seq![s],
            Some(i) => if 0 <= i < s.len() {
                seq![strip_cr(s.subrange(0, i))] + text_lines(s.subrange(i + 1, s.len() as int))
            } else {
                seq![s]
            },
        }
    }
}

/// The screen rows drawn from row 1, each cut to the terminal width, as
/// many as fit above the bottom row.
pub open spec fn crt_rows_text(lines: Seq<Seq<char>>, n: int, cols: u16) -> Seq<char>
    decreases n,
{
    if n <= 0 {
        Seq::empty()
    } else {
        crt_rows_text(lines, n - 1, cols) + "\x1B["@ + dec_seq(n as nat) + ";1H"@ + take_chars(lines[n - 1], cols as int)
            + "\x1B[K"@
    }
}

/// The console screen as terminal output for a terminal of `cols` by `rows`.
pub open spec fn crt_text(display: Seq<char>, cols: u16, rows: u16) -> Seq<char> {
    let lines = text_lines(trim_end_newlines(display));
    let fit: int = if rows < 1 { 0 } else { rows - 1 };
    crt_rows_text(lines, if lines.len() < fit { lines.len() as int } else { fit }, cols)
}

proof fn lemma_newline_from_bounds(s: Seq<char>, from: int)
    requires
        0 <= from,
    ensures
        newline_from(s, from) matches Some(i) ==> from <= i < s.len() && s[i] == '\n',
        newline_from(s, from) is None ==> forall|k: int| from <= k < s.len() ==> s[k] != '\n',
    decreases s.len() - from,
{
    if from < s.len() && s[from] != '\n' {
        lemma_newline_from_bounds(s, from + 1);
    }
}

/// The lines of the text `v[lo..hi]`, with `v[hi - 1]` not a line feed.
fn split_lines(v: &Vec<char>, hi: usize) -> (r: Vec<Vec<char>>)
    requires
        hi <= v@.len(),
    ensures
        r@.len() == text_lines(v@.subrange(0, hi as int)).len(),
        forall|k: int| 0 <= k < r@.len() ==> (#[trigger] r@[k])@ == text_lines(v@.subrange(0, hi as int))[k],
{
    let mut lines: Vec<Vec<char>> = Vec::new();
    let mut lo: usize = 0;
    let ghost whole = v@.subrange(0, hi as int);
    while lo < hi
        invariant
            hi <= v@.len(),
            lo <= hi,
            whole == v@.subrange(0, hi as int),
            ({
                let done = Seq::new(lines@.len(), |k: int| lines@[k]@);
                done + text_lines(v@.subrange(lo as int, hi as int)) == text_lines(whole)
            }),
        decreases hi - lo,
    {
        let ghost rest = v@.subrange(lo as int, hi as int);
        let mut line: Vec<char> = Vec::new();
        let mut i: usize = lo;
        while i < hi && v[i] != '\n'
            invariant
                lo <= i <= hi,
                hi <= v@.len(),
                line@ == v@.subrange(lo as int, i as int),
                forall|k: int| lo <= k < i ==> v@[k] != '\n',
            decreases hi - i,
        {
            line.push(v[i]);
            assert(line@ =~= v@.subrange(lo as int, i + 1));
            i = i + 1;
        }
        let ghost done_before = Seq::new(lines@.len(), |k: int| lines@[k]@);
        proof {
            lemma_newline_from_bounds(rest, 0);
        }
        if i < hi {
            assert(rest[i - lo] == '\n');
            assert(forall|k: int| 0 <= k < i - lo ==> rest[k] != '\n');
            proof {
                lemma_first_newline(rest, (i - lo) as int);
            }
            let l = line.len();
            if l > 0 && line[l - 1] == '\r' {
                line.pop();
            }
            assert(line@ == strip_cr(rest.subrange(0, i - lo)));
            assert(rest.subrange(i - lo + 1, rest.len() as int) =~= v@.subrange(i + 1, hi as int));
            lines.push(line);
            lo = i + 1;
        } else {
            proof {
                lemma_no_newline(rest);
            }
            assert(line@ =~= rest);
            lines.push(line);
            lo = hi;
        }
        let ghost done_after = Seq::new(lines@.len(), |k: int| lines@[k]@);
        assert(done_after =~= done_before.push(lines@.last()@));
        assert(v@.subrange(lo as int, hi as int).len() == 0 ==> text_lines(v@.subrange(lo as int, hi as int)) =~= Seq::<Seq<char>>::empty());
        assert(done_after + text_lines(v@.subrange(lo as int, hi as int)) =~= text_lines(whole));
    }
    assert(v@.subrange(hi as int, hi as int) =~= Seq::<char>::empty());
    assert(Seq::new(lines@.len(), |k: int| lines@[k]@) =~= text_lines(whole));
    lines
}

/// The first line feed of `s` is at `i`.
proof fn lemma_first_newline(s: Seq<char>, i: int)
    requires
        0 <= i < s.len(),
        s[i] == '\n',
        forall|k: int| 0 <= k < i ==> s[k] != '\n',
    ensures
        text_lines(s) == seq![strip_cr(s.subrange(0, i))] + text_lines(s.subrange(i + 1, s.len() as int)),
{
    lemma_newline_from_first(s, 0, i);
}

proof fn lemma_newline_from_first(s: Seq<char>, from: int, i: int)
    requires
        0 <= from <= i < s.len(),
        s[i] == '\n',
        forall|k: int| from <= k < i ==> s[k] != '\n',
    ensures
        newline_from(s, from) == Some(i),
    decreases i - from,
{
    if from < i {
        lemma_newline_from_first(s, from + 1, i);
    }
}

/// A non-empty text with no line feed is one line.
proof fn lemma_no_newline(s: Seq<char>)
    requires
        s.len() > 0,
        forall|k: int| 0 <= k < s.len() ==> s[k] != '\n',
    ensures
        text_lines(s) == seq![s],
{
    lemma_newline_from_none(s, 0);
}

proof fn lemma_newline_from_none(s: Seq<char>, from: int)
    requires
        0 <= from,
        forall|k: int| from <= k < s.len() ==> s[k] != '\n',
    ensures
        newline_from(s, from) is None,
    decreases s.len() - from,
{
    if from < s.len() {
        lemma_newline_from_none(s, from + 1);
    }
}

/// The console screen as terminal output for a terminal of `term_cols` by
/// `term_rows`: the screen's lines from row 1, each cut to the width, as
/// many as fit above the bottom row.
pub fn render_screen(display: &str, term_cols: u16, term_rows: u16) -> (r: String)
    ensures
        r@ == crt_text(display@, term_cols, term_rows),
{
    let v = chars_of(display);
    let mut hi = v.len();
    assert(v@.subrange(0, v@.len() as int) =~= v@);
    while hi > 0 && v[hi - 1] == '\n'
        invariant
            hi <= v@.len(),
            trim_end_newlines(v@.subrange(0, hi as int)) == trim_end_newlines(v@),
        decreases hi,
    {
        assert(v@.subrange(0, hi as int).drop_last() =~= v@.subrange(0, hi - 1));
        hi = hi - 1;
    }
    assert(trim_end_newlines(v@.subrange(0, hi as int)) == v@.subrange(0, hi as int));
    let lines = split_lines(&v, hi);
    let ghost ls = text_lines(trim_end_newlines(display@));
    let fit: usize = if term_rows < 1 { 0 } else { (term_rows - 1) as usize };
    let n: usize = if lines.len() < fit { lines.len() } else { fit };
    let mut out = String::new();
    let mut row: usize = 0;
    while row < n
        invariant
            n <= lines@.len(),
            n <= fit,
            fit < 65536,
            lines@.len() == ls.len(),
            forall|k: int| 0 <= k < lines@.len() ==> (#[trigger] lines@[k])@ == ls[k],
            row <= n,
            out@ == crt_rows_text(ls, row as int, term_cols),
        decreases n - row,
    {
        push_text(&mut out, "\x1B[");
        push_decimal(&mut out, (row + 1) as u64);
        push_text(&mut out, ";1H");
        let line = &lines[row];
        let cut = if line.len() < term_cols as usize { line.len() } else { term_cols as usize };
        let mut i: usize = 0;
        let ghost base = out@;
        while i < cut
            invariant
                cut <= line@.len(),
                i <= cut,
                out@ == base + line@.subrange(0, i as int),
            decreases cut - i,
        {
            out.push(line[i]);
            assert(line@.subrange(0, i + 1) =~= line@.subrange(0, i as int).push(line@[i as int]));
            i = i + 1;
        }
        assert(line@.subrange(0, cut as int) =~= take_chars(ls[row as int], term_cols as int));
        push_text(&mut out, "\x1B[K");
        assert(out@ =~= crt_rows_text(ls, row + 1, term_cols));
        row = row + 1;
    }
    out
}

/// Key codes the terminal reports, as far as the TUI tells them apart.
#[derive(Copy, Clone, Debug, PartialEq, Eq, Structural)]
pub enum KeyCodeKind {
    Esc,
    F(u8),
    Char(char),
    Enter,
    Backspace,
    Tab,
    Other,
}

/// The modifier keys held with a key: none, exactly Shift, exactly
/// Control, or another combination.
#[derive(Copy, Clone, Debug, PartialEq, Eq, Structural)]
pub enum KeyMods {
    Plain,
    Shift,
    Control,
    Other,
}

/// A key press.
#[derive(Copy, Clone, Debug, PartialEq, Eq, Structural)]
pub struct TermKey {
    pub code: KeyCodeKind,
    pub mods: KeyMods,
}

/// What a key does while the machine runs in the terminal.
#[derive(Debug, Clone, PartialEq, Eq)]
pub enum KeyAction {
    /// Type these characters on the console keyboard.
    Type(String),
    /// F5: toggle between running and stopped.
    ToggleRun,
    /// Ctrl+D: leave the terminal.
    Exit,
    /// Ctrl+K: open the command prompt.
    Command,
    /// Nothing to do.
    Nothing,
}

/// The capital of an ASCII lower-case letter, any other character itself.
pub open spec fn ascii_upper(c: char) -> char {
    if 97 <= (c as u32) <= 122 { ((c as u32) - 32) as char } else { c }
}

/// The control code Ctrl+`c` types: the character's low five bits.
pub open spec fn ctrl_code(c: char) -> u8 {
    ((c as u32) & 0x1F) as u8
}

/// The characters `char::to_uppercase` gives for `c` (the Unicode upper-case
/// mapping, one or more characters; it does not depend on a locale).
pub uninterp spec fn char_upper(c: char) -> Seq<char>;

/// `char::to_uppercase` collected into a string: the characters named
/// `char_upper(ch)`; for an ASCII character its capital (letters) or itself.
#[verifier::external_body]
fn uppercase_of(ch: char) -> (r: String)
    ensures
        r@ == char_upper(ch),
        (ch as u32) < 128 ==> r@ == seq![ascii_upper(ch)],
{
    ch.to_uppercase().collect()
}

/// What a key does while the machine runs: Esc types ESC, F5 toggles
/// running, Ctrl+D exits, Ctrl+K opens the prompt, other Ctrl keys type
/// their control code (when not 0), characters are typed in upper case,
/// Enter, Backspace and Tab type CR, DEL and TAB.
pub fn terminal_key_action(key: TermKey) -> (r: KeyAction)
    ensures
        match key.code {
            KeyCodeKind::Esc => r matches KeyAction::Type(t) && t@ == seq!['\x1B'],
            KeyCodeKind::F(n) => if n == 5 { r == KeyAction::ToggleRun } else { r == KeyAction::Nothing },
            KeyCodeKind::Char(c) => if key.mods == KeyMods::Control {
                if c == 'd' {
                    r == KeyAction::Exit
                } else if c == 'k' {
                    r == KeyAction::Command
                } else if ctrl_code(c) != 0 {
                    r matches KeyAction::Type(t) && t@ == seq![ctrl_code(c) as char]
                } else {
                    r == KeyAction::Nothing
                }
            } else {
                r matches KeyAction::Type(t) && t@ == char_upper(c) && ((c as u32) < 128 ==> t@ == seq![
                    ascii_upper(c),
                ])
            },
            KeyCodeKind::Enter => r matches KeyAction::Type(t) && t@ == seq!['\r'],
            KeyCodeKind::Backspace => r matches KeyAction::Type(t) && t@ == seq!['\x7F'],
            KeyCodeKind::Tab => r matches KeyAction::Type(t) && t@ == seq!['\t'],
            KeyCodeKind::Other => r == KeyAction::Nothing,
        },
{
    match key.code {
        KeyCodeKind::Esc => {
            let mut t = String::new();
            t.push('\x1B');
            KeyAction::Type(t)
        },
        KeyCodeKind::F(n) => if n == 5 { KeyAction::ToggleRun } else { KeyAction::Nothing },
        KeyCodeKind::Char(c) => {
            if key.mods == KeyMods::Control {
                if c == 'd' {
                    KeyAction::Exit
                } else if c == 'k' {
                    KeyAction::Command
                } else {
                    let code = ((c as u32) & 0x1F) as u8;
                    if code != 0 {
                        let mut t = String::new();
                        t.push(code as char);
                        KeyAction::Type(t)
                    } else {
                        KeyAction::Nothing
                    }
                }
            } else {
                KeyAction::Type(uppercase_of(c))
            }
        },
        KeyCodeKind::Enter => {
            let mut t = String::new();
            t.push('\r');
            KeyAction::Type(t)
        },
        KeyCodeKind::Backspace => {
            let mut t = String::new();
            t.push('\x7F');
            KeyAction::Type(t)
        },
        KeyCodeKind::Tab => {
            let mut t = String::new();
            t.push('\t');
            KeyAction::Type(t)
        },
        KeyCodeKind::Other => KeyAction::Nothing,
    }
}

/// What a key does at the command prompt.
#[derive(Copy, Clone, Debug, PartialEq, Eq, Structural)]
pub enum ModalAction {
    /// Esc, Ctrl+K or Ctrl+D: leave the prompt.
    Close,
    /// Enter: run the command typed.
    Submit,
    /// Backspace: remove the last character.
    Erase,
    /// A character typed without Control.
    Insert(char),
    /// Nothing to do.
    Ignore,
}

/// What a key does at the command prompt.
pub fn modal_key_action(key: TermKey) -> (r: ModalAction)
    ensures
        r == match key.code {
            KeyCodeKind::Esc => ModalAction::Close,
            KeyCodeKind::Char(c) => if key.mods == KeyMods::Control && (c == 'k' || c == 'd') {
                ModalAction::Close
            } else if key.mods == KeyMods::Plain || key.mods == KeyMods::Shift {
                ModalAction::Insert(c)
            } else {
                ModalAction::Ignore
            },
            KeyCodeKind::Enter => ModalAction::Submit,
            KeyCodeKind::Backspace => ModalAction::Erase,
            _ => ModalAction::Ignore,
        },
{
    match key.code {
        KeyCodeKind::Esc => ModalAction::Close,
        KeyCodeKind::Char(c) => {
            if key.mods == KeyMods::Control && (c == 'k' || c == 'd') {
                ModalAction::Close
            } else if key.mods == KeyMods::Plain || key.mods == KeyMods::Shift {
                ModalAction::Insert(c)
            } else {
                ModalAction::Ignore
            }
        },
        KeyCodeKind::Enter => ModalAction::Submit,
        KeyCodeKind::Backspace => ModalAction::Erase,
        _ => ModalAction::Ignore,
    }
}

/// The idle counter after a frame, and whether to sleep a little: it counts
/// frames in which no key came and the CPU sits on `IN 0x01` (polling the
/// console status) with no key waiting; past 100 such frames the loop
/// sleeps.
pub fn idle_update(got_key: bool, rx_ready: bool, op: u8, next: u8, idle: u64) -> (r: (u64, bool))
    requires
        idle < u64::MAX,
    ensures
        r == if got_key {
            (0u64, false)
        } else if !rx_ready && op == 0xDB && next == 0x01 {
            ((idle + 1) as u64, idle + 1 > 100)
        } else {
            (0u64, false)
        },
{
    if got_key {
        (0, false)
    } else if !rx_ready && op == 0xDB && next == 0x01 {
        let n = idle + 1;
        (n, n > 100)
    } else {
        (0, false)
    }
}

/// The command prompt's result for `message`, leaving it open.
fn stay(message: String) -> (r: CommandResult)
    ensures
        !r.close && !r.ran && r.message == message,
{
    CommandResult { close: false, ran: false, message }
}

/// The command prompt's result for `message`, closing it.
fn close(message: String) -> (r: CommandResult)
    ensures
        r.close && !r.ran && r.message == message,
{
    CommandResult { close: true, ran: false, message }
}

/// The command prompt's result for `message` after a run-type command
/// (load, program, go): the prompt closes and the machine is to run.
fn close_ran(message: String) -> (r: CommandResult)
    ensures
        r.close && r.ran && r.message == message,
{
    CommandResult { close: true, ran: true, message }
}

/// A string of the characters of `t`.
fn text_of(t: &str) -> (r: String)
    ensures
        r@ == t@,
{
    let mut s = String::new();
    push_text(&mut s, t);
    assert(s@ =~= t@);
    s
}

/// The help line.
pub open spec fn help_text() -> Seq<char> {
    "Commands: load <file> [addr]  program <file.json>  mount <file>  go  run  reset  quit"@
}

/// The arguments a command takes, for its usage line.
pub open spec fn usage_args(command: Seq<char>) -> Seq<char> {
    if command == "load"@ {
        " <file> [addr]"@
    } else if command == "program"@ {
        " <file.json>"@
    } else {
        " <file>"@
    }
}

/// Run a command that needs nothing read from disk: help, usage, go,
/// reset, quit, unknown or empty.
pub fn run_command(emu: &mut Imsai8080, cmd: &TuiCommand, program_name: &mut String) -> (r: CommandResult)
    requires
        old(emu).wf(),
        !(cmd is Load || cmd is Program || cmd is Mount),
    ensures
        final(emu).wf(),
        r.ran == (cmd is Go),
        match cmd {
            TuiCommand::Empty => !r.close && r.message@ == Seq::<char>::empty() && *final(emu) == *old(emu),
            TuiCommand::Help => !r.close && r.message@ == help_text() && *final(emu) == *old(emu),
            TuiCommand::Usage { command } => !r.close && r.message@ == "Usage: "@ + command@ + usage_args(command@)
                && *final(emu) == *old(emu),
            TuiCommand::Go => r.close && r.message@ == "Resuming execution. Press Ctrl+K to pause."@
                && final(emu).bus == old(emu).bus && final(emu).panel == old(emu).panel
                && final(emu).cpu == (crate::emulator::CoreRegisters { halt: false, ..old(emu).cpu }),
            TuiCommand::Reset => !r.close && r.message@ == "Cold reset. Memory cleared, CPU at 0x0000."@
                && final(program_name)@ == Seq::<char>::empty() && final(emu).bus@.ram == Seq::new(65536, |i: int| 0xFFu8)
                && final(emu).panel@ == crate::cards::front_panel::spec_power_on_panel() && final(emu).cycles == 0,
            TuiCommand::Quit => r.close && r.message@ == "Quitting."@ && *final(emu) == *old(emu),
            _ => !r.close && r.message@ == "Unknown command. Type 'help' for the list."@ && *final(emu) == *old(emu),
        },
        !(cmd is Reset) ==> *final(program_name) == *old(program_name),
{
    match cmd {
        TuiCommand::Empty => stay(String::new()),
        TuiCommand::Help => stay(text_of(
            "Commands: load <file> [addr]  program <file.json>  mount <file>  go  run  reset  quit",
        )),
        TuiCommand::Usage { command } => {
            let mut m = text_of("Usage: ");
            push_text(&mut m, command.as_str());
            if text_eq_str(command.as_str(), "load") {
                push_text(&mut m, " <file> [addr]");
            } else if text_eq_str(command.as_str(), "program") {
                push_text(&mut m, " <file.json>");
            } else {
                push_text(&mut m, " <file>");
            }
            stay(m)
        },
        TuiCommand::Go => {
            emu.resume();
            close_ran(text_of("Resuming execution. Press Ctrl+K to pause."))
        },
        TuiCommand::Reset => {
            *emu = Imsai8080::new();
            *program_name = String::new();
            stay(text_of("Cold reset. Memory cleared, CPU at 0x0000."))
        },
        TuiCommand::Quit => close(text_of("Quitting.")),
        _ => stay(text_of("Unknown command. Type 'help' for the list.")),
    }
}

/// Whether `a` and `b` hold the same characters.
fn text_eq_str(a: &str, b: &str) -> (r: bool)
    ensures
        r == (a@ == b@),
{
    crate::cli::text_eq(a, b)
}

/// `Loaded N bytes at 0xAAAA`.
pub open spec fn loaded_text(n: nat, addr: u16) -> Seq<char> {
    "Loaded "@ + dec_seq(n) + " bytes at 0x"@ + hex4_seq(addr)
}

/// `load <file> [addr]` with the file's bytes, or the error reading it: the
/// bytes go to memory at `addr`, the CPU is set to run from there, the
/// file becomes the program name, and the prompt closes.
pub fn run_load_command(
    emu: &mut Imsai8080,
    path: &str,
    addr: u16,
    data: Result<Vec<u8>, String>,
    program_name: &mut String,
) -> (r: CommandResult)
    requires
        old(emu).wf(),
    ensures
        final(emu).wf(),
        r.ran == (data is Ok),
        match data {
            Ok(bytes) => r.close && r.message@ == loaded_text(bytes@.len(), addr) && final(program_name)@ == path@
                && final(emu).bus@ == (crate::bus::BusView {
                ram: crate::bus::spec_load(old(emu).bus@.ram, addr, bytes@),
                ..old(emu).bus@
            }) && final(emu).panel == old(emu).panel
                && final(emu).cpu == (crate::emulator::CoreRegisters { pc: addr, halt: false, ..old(emu).cpu }),
            Err(e) => !r.close && r.message@ == "Error: "@ + e@ && *final(emu) == *old(emu) && *final(program_name)
                == *old(program_name),
        },
{
    match data {
        Ok(bytes) => {
            emu.load_program(addr, bytes.as_slice());
            emu.set_pc(addr);
            *program_name = text_of(path);
            let mut m = text_of("Loaded ");
            push_decimal(&mut m, bytes.len() as u64);
            push_text(&mut m, " bytes at 0x");
            push_hex4(&mut m, addr);
            close_ran(m)
        },
        Err(e) => {
            let mut m = text_of("Error: ");
            push_text(&mut m, e.as_str());
            stay(m)
        },
    }
}

/// Blank the console screen and turn off automatic rendering.
fn reset_console_for_new_program(emu: &mut Imsai8080)
    requires
        old(emu).wf(),
    ensures
        final(emu).wf(),
        final(emu).panel == old(emu).panel,
        final(emu).bus@.ram == old(emu).bus@.ram,
        final(emu).bus@.serial.video.auto_render == false,
{
    emu.bus.console().clear_screen();
    emu.bus.console().set_auto_render(false);
}

/// `Running NAME (PC=AAAA)...`.
pub open spec fn running_text(name: Seq<char>, start: u16) -> Seq<char> {
    "Running "@ + name + " (PC="@ + hex4_seq(start) + ")..."@
}

/// `program <file.json>` with the program read, or the error reading it:
/// the console is cleared, the program's steps run on the panel, the CPU is
/// set to run from the program's start (0 when it names none), the program
/// name shows, and the prompt closes.
pub fn run_program_command(
    emu: &mut Imsai8080,
    prog: Result<PanelProgram, String>,
    program_name: &mut String,
) -> (r: CommandResult)
    requires
        old(emu).wf(),
    ensures
        final(emu).wf(),
        r.ran == (prog is Ok),
        match prog {
            Ok(p) => r.close && r.message@ == running_text(
                p.name@,
                match program_start(p.steps@) {
                    Some(a) => a,
                    None => 0,
                },
            ) && final(program_name)@ == p.name@ && final(emu).cpu.pc == (match program_start(p.steps@) {
                Some(a) => a,
                None => 0u16,
            }) && !final(emu).cpu.halt,
            Err(e) => !r.close && r.message@ == "Error: "@ + e@ && *final(emu) == *old(emu) && *final(program_name)
                == *old(program_name),
        },
{
    match prog {
        Ok(p) => {
            let start = match find_program_start(&p) {
                Some(a) => a,
                None => 0,
            };
            reset_console_for_new_program(emu);
            execute_panel_program(emu, &p);
            emu.set_pc(start);
            *program_name = text_of(p.name.as_str());
            let mut m = text_of("Running ");
            push_text(&mut m, p.name.as_str());
            push_text(&mut m, " (PC=");
            push_hex4(&mut m, start);
            push_text(&mut m, ")...");
            close_ran(m)
        },
        Err(e) => {
            let mut m = text_of("Error: ");
            push_text(&mut m, e.as_str());
            stay(m)
        },
    }
}

/// `mount <file>` with the disk image read, or the error reading it: the
/// disk goes into drive A and the prompt closes.
pub fn run_mount_command(emu: &mut Imsai8080, path: &str, disk: Result<DiskImage, String>) -> (r: CommandResult)
    requires
        old(emu).wf(),
        disk matches Ok(d) ==> d.wf(),
    ensures
        final(emu).wf(),
        !r.ran,
        match disk {
            Ok(d) => r.close && r.message@ == "Disk mounted in drive A: "@ + path@ && final(emu).bus@ == (crate::bus::BusView {
                tarbell: crate::chips::fd1771::spec_set_drive(old(emu).bus@.tarbell, 0, Some(d.model())),
                ..old(emu).bus@
            }) && final(emu).panel == old(emu).panel,
            Err(e) => !r.close && r.message@ == "Error: "@ + e@ && *final(emu) == *old(emu),
        },
{
    match disk {
        Ok(d) => {
            let ghost model = d.model();
            match emu.bus.insert_disk(0, d) {
                Ok(()) => {
                    let mut m = text_of("Disk mounted in drive A: ");
                    push_text(&mut m, path);
                    close(m)
                },
                Err(e) => {
                    let mut m = text_of("Error: ");
                    push_text(&mut m, e.as_str());
                    stay(m)
                },
            }
        },
        Err(e) => {
            let mut m = text_of("Error: ");
            push_text(&mut m, e.as_str());
            stay(m)
        },
    }
}

} // verus!
