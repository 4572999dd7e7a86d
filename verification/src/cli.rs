//! Command-line arguments of the terminal emulator.
use vstd::prelude::*;
use crate::program::{from_hex_radix, strip_all_prefix, chars_of, parse_hex_digits_in};

verus! {

/// Parsed command-line arguments.
pub struct Args {
    pub load_path: Option<String>,
    pub load_addr: u16,
    pub program_path: Option<String>,
    pub disk_path: Option<String>,
    pub cmd_text: Option<String>,
    pub step_trace: bool,
    pub trace: bool,
    pub verbose_trace: bool,
    pub diag: bool,
    pub pc_trace: bool,
    pub batch: bool,
    pub script: bool,
}

/// The arguments as character sequences.
pub open spec fn arg_texts(args: Seq<String>) -> Seq<Seq<char>> {
    Seq::new(args.len(), |i: int| args[i]@)
}

/// Some argument is `a`.
pub open spec fn has_arg(args: Seq<Seq<char>>, a: Seq<char>) -> bool {
    exists|i: int| 0 <= i < args.len() && args[i] == a
}

/// Position of the first argument equal to `a`, at or after `from`.
pub open spec fn first_index_from(args: Seq<Seq<char>>, a: Seq<char>, from: int) -> Option<int>
    decreases args.len() - from,
{
    if from < 0 || from >= args.len() {
        None
    } else if args[from] == a {
        Some(from)
    } else {
        first_index_from(args, a, from + 1)
    }
}

/// A found position is in range and holds the argument looked for.
pub proof fn lemma_first_index_found(args: Seq<Seq<char>>, a: Seq<char>, from: int)
    requires
        0 <= from,
    ensures
        first_index_from(args, a, from) matches Some(i) ==> from <= i < args.len() && args[i] == a,
    decreases args.len() - from,
{
    if from < args.len() && args[from] != a {
        lemma_first_index_found(args, a, from + 1);
    }
}

/// The argument right after the first `name`, if there is one.
pub open spec fn value_after(args: Seq<Seq<char>>, name: Seq<char>) -> Option<Seq<char>> {
    match first_index_from(args, name, 0) {
        Some(i) => if args.len() - i > 1 {
            Some(args[i + 1])
        } else {
            None
        },
        None => None,
    }
}

/// The load address: the argument two places after the first `--load`,
/// stripped of "0x" then "0X" prefixes and read as hex; 0 when it is
/// missing or does not parse.
pub open spec fn load_address(args: Seq<Seq<char>>) -> u16 {
    match first_index_from(args, "--load"@, 0) {
        Some(i) => if i + 2 < args.len() {
            match from_hex_radix(strip_all_prefix(strip_all_prefix(args[i + 2], '0', 'x'), '0', 'X'), 65535) {
                Ok(v) => v as u16,
                Err(_) => 0,
            }
        } else {
            0
        },
        None => 0,
    }
}

/// The view of an optional string.
pub open spec fn opt_text(s: Option<String>) -> Option<Seq<char>> {
    match s {
        Some(t) => Some(t@),
        None => None,
    }
}

/// `a` and `b` hold the same characters.
pub fn text_eq(a: &str, b: &str) -> (r: bool)
    ensures
        r == (a@ == b@),
{
    let n = a.unicode_len();
    let m = b.unicode_len();
    if n != m {
        return false;
    }
    let mut i: usize = 0;
    while i < n
        invariant
            n == a@.len(),
            m == b@.len(),
            n == m,
            i <= n,
            a@.subrange(0, i as int) == b@.subrange(0, i as int),
        decreases n - i,
    {
        if a.get_char(i) != b.get_char(i) {
            return false;
        }
        assert(a@.subrange(0, i + 1) =~= a@.subrange(0, i as int).push(a@[i as int]));
        assert(b@.subrange(0, i + 1) =~= b@.subrange(0, i as int).push(b@[i as int]));
        i = i + 1;
    }
    assert(a@ =~= a@.subrange(0, n as int));
    assert(b@ =~= b@.subrange(0, n as int));
    true
}

fn find_arg(args: &Vec<String>, name: &str) -> (r: Option<usize>)
    ensures
        match first_index_from(arg_texts(args@), name@, 0) {
            Some(i) => r == Some(i as usize),
            None => r is None,
        },
        r matches Some(i) ==> i < args@.len(),
{
    let ghost t = arg_texts(args@);
    proof {
        lemma_first_index_found(t, name@, 0);
    }
    let mut i: usize = 0;
    while i < args.len()
        invariant
            i <= args@.len(),
            t == arg_texts(args@),
            first_index_from(t, name@, 0) == first_index_from(t, name@, i as int),
        decreases args@.len() - i,
    {
        if text_eq(args[i].as_str(), name) {
            return Some(i);
        }
        i = i + 1;
    }
    None
}

fn has_either(args: &Vec<String>, long: &str, short: &str) -> (r: bool)
    ensures
        r == (has_arg(arg_texts(args@), long@) || has_arg(arg_texts(args@), short@)),
{
    let ghost t = arg_texts(args@);
    let mut i: usize = 0;
    while i < args.len()
        invariant
            i <= args@.len(),
            t == arg_texts(args@),
            forall|j: int| 0 <= j < i ==> t[j] != long@ && t[j] != short@,
        decreases args@.len() - i,
    {
        if text_eq(args[i].as_str(), long) || text_eq(args[i].as_str(), short) {
            assert(t[i as int] == args@[i as int]@);
            return true;
        }
        i = i + 1;
    }
    false
}

fn value_of(args: &Vec<String>, name: &str) -> (r: Option<String>)
    ensures
        opt_text(r) == value_after(arg_texts(args@), name@),
{
    let ghost t = arg_texts(args@);
    proof {
        lemma_first_index_found(t, name@, 0);
    }
    match find_arg(args, name) {
        Some(i) => {
            assert(t.len() == args.len());
            assert(first_index_from(t, name@, 0) == Some(i as int));
            if args.len() - i > 1 {
                let v = args[i + 1].clone();
                assert(v@ == t[i + 1]);
                Some(v)
            } else {
                None
            }
        },
        None => None,
    }
}

/// Parse a list of command-line arguments (the program name first, as the
/// environment gives them) into an `Args` struct.
pub fn parse_arg_list(args: &Vec<String>) -> (r: Args)
    ensures
        ({
            let t = arg_texts(args@);
            &&& r.trace == (has_arg(t, "--trace"@) || has_arg(t, "-t"@))
            &&& r.verbose_trace == (has_arg(t, "--vtrace"@) || has_arg(t, "-v"@))
            &&& r.diag == (has_arg(t, "--diag"@) || has_arg(t, "-d"@))
            &&& r.step_trace == (has_arg(t, "--step"@) || has_arg(t, "-s"@))
            &&& r.pc_trace == (has_arg(t, "--pctrace"@) || has_arg(t, "-p"@))
            &&& r.batch == (has_arg(t, "--batch"@) || has_arg(t, "-b"@))
            &&& r.script == has_arg(t, "--script"@)
            &&& opt_text(r.cmd_text) == value_after(t, "--cmd"@)
            &&& opt_text(r.load_path) == value_after(t, "--load"@)
            &&& opt_text(r.program_path) == value_after(t, "--program"@)
            &&& opt_text(r.disk_path) == value_after(t, "--disk"@)
            &&& r.load_addr == (if r.load_path is Some {
                load_address(t)
            } else {
                0
            })
        }),
{
    let trace = has_either(args, "--trace", "-t");
    let verbose_trace = has_either(args, "--vtrace", "-v");
    let diag = has_either(args, "--diag", "-d");
    let step_trace = has_either(args, "--step", "-s");
    let pc_trace = has_either(args, "--pctrace", "-p");
    let batch = has_either(args, "--batch", "-b");
    let script = has_either(args, "--script", "--script");
    let cmd_text = value_of(args, "--cmd");
    let load_path = value_of(args, "--load");
    let program_path = value_of(args, "--program");
    let disk_path = value_of(args, "--disk");
    let ghost t = arg_texts(args@);
    proof {
        lemma_first_index_found(t, "--load"@, 0);
    }
    let load_addr: u16 = if load_path.is_some() {
        match find_arg(args, "--load") {
            Some(pos) => if args.len() - pos > 2 {
                assert(t.len() == args.len());
                assert(first_index_from(t, "--load"@, 0) == Some(pos as int));
                let v = chars_of(args[pos + 2].as_str());
                match parse_hex_digits_in(&v) {
                    Some(a) => a,
                    None => 0,
                }
            } else {
                0
            },
            None => 0,
        }
    } else {
        0
    };
    Args {
        load_path,
        load_addr,
        program_path,
        disk_path,
        cmd_text,
        step_trace,
        trace,
        verbose_trace,
        diag,
        pc_trace,
        batch,
        script,
    }
}

} // verus!
