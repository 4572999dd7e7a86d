//! 64KB static RAM card; power-up contents are 0xFF (floating bus).
//!
//! Memory images are kept sparse: only maximal runs of bytes other than 0xFF
//! are stored, each as its start address and its bytes in upper-case hex.
use vstd::prelude::*;
use vstd::utf8::{
    encode_utf8, encode_utf8_valid_utf8, is_ascii_chars, is_ascii_chars_encode_utf8, is_char_boundary,
    is_char_boundary_iff_not_is_continuation_byte, is_char_boundary_start_end_of_seq, valid_utf8,
};
use vstd::string::StringSliceAdditionalSpecFns;
use crate::cpm_bios::copy_into;
use crate::program::{hex_digit_value, ParseErrorKind};
use crate::text::{hex_char, hex2_seq, push_hex2};

verus! {

/// Memory card: 64KB static RAM on the S-100 bus.
///
/// Uninitialized bus reads return 0xFF (floating bus state).
/// The RAM array is initialized to 0xFF on creation.
pub struct MemoryCard {
    pub ram: [u8; 65536],
}

impl MemoryCard {
    pub fn new() -> (r: Self)
        ensures
            r.ram@ == Seq::new(65536, |i: int| 0xFFu8),
    {
        let r = Self { ram: [0xFFu8; 65536] };
        assert(r.ram@ =~= Seq::new(65536, |i: int| 0xFFu8));
        r
    }

    pub fn new_zeroed() -> (r: Self)
        ensures
            r.ram@ == Seq::new(65536, |i: int| 0x00u8),
    {
        let r = Self { ram: [0x00u8; 65536] };
        assert(r.ram@ =~= Seq::new(65536, |i: int| 0x00u8));
        r
    }

    pub fn read(&self, addr: u16) -> (r: u8)
        ensures
            r == self.ram@[addr as int],
    {
        self.ram[addr as usize]
    }

    pub fn write(&mut self, addr: u16, value: u8)
        ensures
            final(self).ram@ == old(self).ram@.update(addr as int, value),
    {
        self.ram[addr as usize] = value;
    }
}

impl Default for MemoryCard {
    fn default() -> (r: Self)
        ensures
            r.ram@ == Seq::new(65536, |i: int| 0xFFu8),
    {
        Self::new()
    }
}


/// Sparse segment of non-0xFF memory: start address and hex text.
#[derive(Debug, Clone)]
pub struct MemorySegment {
    pub addr: u16,
    pub data: String,
}

/// Why a memory image could not be loaded.
#[derive(Debug, Clone, Copy, PartialEq, Eq, Structural)]
pub enum LoadError {
    /// A segment's hex text has an odd number of bytes.
    OddLength { addr: u16 },
    /// A pair of hex characters is not a hex byte.
    BadDigit(ParseErrorKind),
}

/// Maximal runs `(start, end)` of non-0xFF bytes of `ram` from position `i`
/// on; `start` is where the run under way began.
pub open spec fn runs_from(ram: Seq<u8>, i: int, start: Option<int>) -> Seq<(int, int)>
    decreases ram.len() - i,
{
    if i >= ram.len() {
        match start {
            Some(s) => seq![(s, ram.len() as int)],
            None => Seq::empty(),
        }
    } else if ram[i] != 0xFF {
        match start {
            Some(s) => runs_from(ram, i + 1, Some(s)),
            None => runs_from(ram, i + 1, Some(i)),
        }
    } else {
        match start {
            Some(s) => seq![(s, i)] + runs_from(ram, i + 1, None),
            None => runs_from(ram, i + 1, None),
        }
    }
}

/// Maximal runs of non-0xFF bytes of `ram`, in address order.
pub open spec fn memory_runs(ram: Seq<u8>) -> Seq<(int, int)> {
    runs_from(ram, 0, None)
}

/// Upper-case hex digits of the bytes, two per byte, no separators.
pub open spec fn hex_concat(bs: Seq<u8>) -> Seq<char>
    decreases bs.len(),
{
    if bs.len() == 0 {
        Seq::empty()
    } else {
        hex_concat(bs.drop_last()) + hex2_seq(bs.last())
    }
}

/// `segs` lists the maximal runs of non-0xFF bytes of `ram`, in order, each
/// with its start address and its bytes in hex.
pub open spec fn describes_memory(segs: Seq<MemorySegment>, ram: Seq<u8>) -> bool {
    let runs = memory_runs(ram);
    &&& segs.len() == runs.len()
    &&& forall|k: int|
        0 <= k < segs.len() ==> #[trigger] segs[k].addr == runs[k].0 && segs[k].data@ == hex_concat(
            ram.subrange(runs[k].0, runs[k].1),
        )
}

/// The byte that the two-byte text `b0 b1` denotes when read as base 16
/// (an optional '+' before a single digit is allowed), if any.
pub open spec fn pair_value(b0: u8, b1: u8) -> Option<u8> {
    if b0 == 0x2B {
        match hex_digit_value(b1 as char) {
            Some(v) => Some(v as u8),
            None => None,
        }
    } else {
        match (hex_digit_value(b0 as char), hex_digit_value(b1 as char)) {
            (Some(h), Some(l)) => Some((h * 16 + l) as u8),
            _ => None,
        }
    }
}

/// Bytes of the hex text `b` (UTF-8) read two bytes at a time from `i`:
/// `Some(Ok(..))` when all pairs are hex bytes, `Some(Err(..))` at the first
/// pair that is not, `None` when a pair does not lie on character boundaries.
pub open spec fn decode_pairs(b: Seq<u8>, i: int) -> Option<Result<Seq<u8>, LoadError>>
    decreases b.len() - i,
{
    if i < 0 || i + 2 > b.len() {
        Some(Ok(Seq::empty()))
    } else if !(is_char_boundary(b, i) && is_char_boundary(b, i + 2)) {
        None
    } else {
        match pair_value(b[i], b[i + 1]) {
            None => Some(Err(LoadError::BadDigit(ParseErrorKind::InvalidDigit))),
            Some(v) => match decode_pairs(b, i + 2) {
                None => None,
                Some(Err(e)) => Some(Err(e)),
                Some(Ok(rest)) => Some(Ok(seq![v] + rest)),
            },
        }
    }
}

/// Memory and outcome after applying `segs` in order: each segment's bytes
/// are written from its address if they fit below 64K (else skipped); the
/// first segment with an odd-length or non-hex text stops with an error,
/// leaving the earlier segments applied. `None` when a hex pair would be cut
/// inside a multi-byte character.
pub open spec fn apply_segments(ram: Seq<u8>, segs: Seq<MemorySegment>) -> Option<
    (Seq<u8>, Result<(), LoadError>),
>
    decreases segs.len(),
{
    if segs.len() == 0 {
        Some((ram, Ok(())))
    } else {
        let seg = segs[0];
        let b = encode_utf8(seg.data@);
        if b.len() % 2 != 0 {
            Some((ram, Err(LoadError::OddLength { addr: seg.addr })))
        } else {
            match decode_pairs(b, 0) {
                None => None,
                Some(Err(e)) => Some((ram, Err(e))),
                Some(Ok(v)) => {
                    let ram2 = if seg.addr + v.len() <= 65536 {
                        copy_into(ram, v, 0, seg.addr as int, v.len() as int)
                    } else {
                        ram
                    };
                    apply_segments(ram2, segs.drop_first())
                },
            }
        }
    }
}

/// The hex text of `ram[s..e]`.
fn segment_text(ram: &[u8; 65536], s: usize, e: usize) -> (r: String)
    requires
        s <= e <= 65536,
    ensures
        r@ == hex_concat(ram@.subrange(s as int, e as int)),
{
    let mut t = String::new();
    let mut k = s;
    while k < e
        invariant
            s <= k <= e <= 65536,
            t@ == hex_concat(ram@.subrange(s as int, k as int)),
        decreases e - k,
    {
        push_hex2(&mut t, ram[k]);
        assert(ram@.subrange(s as int, k + 1).drop_last() =~= ram@.subrange(s as int, k as int));
        k = k + 1;
    }
    t
}

/// The maximal runs of non-0xFF bytes, each as its address and hex text
/// (what a memory image file holds).
pub fn memory_segments(ram: &[u8; 65536]) -> (r: Vec<MemorySegment>)
    ensures
        describes_memory(r@, ram@),
{
    let ghost total = memory_runs(ram@);
    let ghost mut done: Seq<(int, int)> = Seq::empty();
    let mut out: Vec<MemorySegment> = Vec::new();
    let mut start: Option<usize> = None;
    let mut i: usize = 0;
    while i < 65536
        invariant
            i <= 65536,
            ram@.len() == 65536,
            match start {
                Some(s) => s < i,
                None => true,
            },
            total == memory_runs(ram@),
            total == done + runs_from(
                ram@,
                i as int,
                match start {
                    Some(s) => Some(s as int),
                    None => None,
                },
            ),
            out@.len() == done.len(),
            forall|k: int|
                0 <= k < done.len() ==> #[trigger] out@[k].addr == done[k].0 && out@[k].data@ == hex_concat(
                    ram@.subrange(done[k].0, done[k].1),
                ) && 0 <= done[k].0 <= done[k].1 <= 65536,
        decreases 65536 - i,
    {
        if ram[i] != 0xFF {
            if start.is_none() {
                start = Some(i);
            }
        } else {
            match start {
                Some(s) => {
                    let data = segment_text(ram, s, i);
                    let ghost old_out = out@;
                    out.push(MemorySegment { addr: s as u16, data });
                    proof {
                        let old_done = done;
                        done = done.push((s as int, i as int));
                        assert(old_done + (seq![(s as int, i as int)] + runs_from(ram@, i + 1, None))
                            =~= done + runs_from(ram@, i + 1, None));
                        assert forall|k: int| 0 <= k < done.len() implies #[trigger] out@[k].addr == done[k].0
                            && out@[k].data@ == hex_concat(ram@.subrange(done[k].0, done[k].1))
                            && 0 <= done[k].0 <= done[k].1 <= 65536 by {
                            if k < old_done.len() {
                                assert(done[k] == old_done[k]);
                                assert(out@[k] == old_out[k]);
                            } else {
                                assert(k == old_done.len());
                                assert(out@[k].addr == s as u16);
                                assert(done[k] == (s as int, i as int));
                            }
                        }
                    }
                },
                None => {},
            }
            start = None;
        }
        i = i + 1;
    }
    match start {
        Some(s) => {
            let data = segment_text(ram, s, 65536);
            out.push(MemorySegment { addr: s as u16, data });
            proof {
                let old_done = done;
                done = done.push((s as int, 65536int));
                assert(old_done + seq![(s as int, 65536int)] =~= done);
                assert forall|k: int| 0 <= k < done.len() implies #[trigger] out@[k].addr == done[k].0
                    && out@[k].data@ == hex_concat(ram@.subrange(done[k].0, done[k].1))
                    && 0 <= done[k].0 <= done[k].1 <= 65536 by {
                    if k < old_done.len() {
                        assert(done[k] == old_done[k]);
                    }
                }
            }
        },
        None => {
            assert(done + Seq::<(int, int)>::empty() =~= done);
        },
    }
    assert(total == done);
    assert(out@.len() == memory_runs(ram@).len());
    assert forall|k: int| 0 <= k < out@.len() implies #[trigger] out@[k].addr == memory_runs(ram@)[k].0
        && out@[k].data@ == hex_concat(ram@.subrange(memory_runs(ram@)[k].0, memory_runs(ram@)[k].1)) by {
        assert(out@[k].addr == done[k].0);
    }
    assert(describes_memory(out@, ram@));
    out
}

/// Read the hex text of a segment, two bytes at a time.
fn decode_hex_text(text: &str) -> (r: Result<Vec<u8>, LoadError>)
    requires
        decode_pairs(encode_utf8(text@), 0) is Some,
    ensures
        match decode_pairs(encode_utf8(text@), 0).unwrap() {
            Ok(v) => r matches Ok(out) && out@ == v,
            Err(e) => r == Err::<Vec<u8>, LoadError>(e),
        },
{
    let b = text.as_bytes();
    let n = b.len();
    let mut out: Vec<u8> = Vec::new();
    let mut i: usize = 0;
    while i < n && n - i >= 2
        invariant
            b@ == encode_utf8(text@),
            n == b@.len(),
            i <= n,
            i % 2 == 0,
            decode_pairs(b@, i as int) is Some,
            decode_pairs(b@, 0) == match decode_pairs(b@, i as int).unwrap() {
                Ok(rest) => Some(Ok::<Seq<u8>, LoadError>(out@ + rest)),
                Err(e) => Some(Err::<Seq<u8>, LoadError>(e)),
            },
        decreases n - i,
    {
        let c0 = b[i];
        let c1 = b[i + 1];
        let v: u8 = if c0 == 0x2B {
            match crate::program::hex_digit_of_char(c1 as char) {
                Some(d) => d as u8,
                None => {
                    return Err(LoadError::BadDigit(ParseErrorKind::InvalidDigit));
                },
            }
        } else {
            match (crate::program::hex_digit_of_char(c0 as char), crate::program::hex_digit_of_char(c1 as char)) {
                (Some(h), Some(l)) => (h * 16 + l) as u8,
                _ => {
                    return Err(LoadError::BadDigit(ParseErrorKind::InvalidDigit));
                },
            }
        };
        assert(pair_value(c0, c1) == Some(v));
        let ghost rest = decode_pairs(b@, i + 2);
        let ghost prev = out@;
        out.push(v);
        proof {
            match rest.unwrap() {
                Ok(r2) => {
                    assert(out@ + r2 =~= prev + (seq![v] + r2));
                },
                Err(_) => {},
            }
        }
        i = i + 2;
    }
    proof {
        assert(out@ + Seq::<u8>::empty() =~= out@);
    }
    Ok(out)
}

/// Apply a memory image to `ram`: each segment's bytes are written from its
/// address when they fit below 64K. Stops at the first segment whose text is
/// of odd length or not hex, keeping the segments applied before it.
pub fn load_memory_segments(ram: &mut [u8; 65536], segments: &Vec<MemorySegment>) -> (r: Result<
    (),
    LoadError,
>)
    requires
        apply_segments(old(ram)@, segments@) is Some,
    ensures
        apply_segments(old(ram)@, segments@) == Some((final(ram)@, r)),
{
    assert(segments@.subrange(0, segments@.len() as int) =~= segments@);
    let mut i: usize = 0;
    while i < segments.len()
        invariant
            i <= segments@.len(),
            ram@.len() == 65536,
            apply_segments(old(ram)@, segments@) == apply_segments(
                ram@,
                segments@.subrange(i as int, segments@.len() as int),
            ),
            apply_segments(old(ram)@, segments@) is Some,
        decreases segments@.len() - i,
    {
        let ghost rest = segments@.subrange(i as int, segments@.len() as int);
        assert(rest[0] == segments@[i as int]);
        assert(rest.drop_first() =~= segments@.subrange(i + 1, segments@.len() as int));
        let seg = &segments[i];
        let text = seg.data.as_str();
        let nbytes = text.as_bytes().len();
        assert(text.spec_bytes() == encode_utf8(text@));
        assert(text@ == rest[0].data@);
        assert(nbytes == encode_utf8(rest[0].data@).len());
        if nbytes % 2 != 0 {
            return Err(LoadError::OddLength { addr: seg.addr });
        }
        match decode_hex_text(text) {
            Err(e) => {
                return Err(e);
            },
            Ok(bytes) => {
                let start = seg.addr as usize;
                if bytes.len() <= 65536 - start {
                    let ghost before = ram@;
                    let mut k: usize = 0;
                    while k < bytes.len()
                        invariant
                            k <= bytes@.len(),
                            start + bytes@.len() <= 65536,
                            ram@.len() == 65536,
                            ram@ == copy_into(before, bytes@, 0, start as int, k as int),
                            before.len() == 65536,
                        decreases bytes@.len() - k,
                    {
                        ram[start + k] = bytes[k];
                        assert(ram@ =~= copy_into(before, bytes@, 0, start as int, k + 1));
                        k = k + 1;
                    }
                }
            },
        }
        i = i + 1;
    }
    assert(segments@.subrange(segments@.len() as int, segments@.len() as int) =~= Seq::<MemorySegment>::empty());
    Ok(())
}


/// Memory `m` with each run `(s, e)` of `runs` overwritten by `ram[s..e]`, in order.
pub open spec fn apply_runs(m: Seq<u8>, ram: Seq<u8>, runs: Seq<(int, int)>) -> Seq<u8>
    decreases runs.len(),
{
    if runs.len() == 0 {
        m
    } else {
        apply_runs(copy_into(m, ram, runs[0].0, runs[0].0, runs[0].1 - runs[0].0), ram, runs.drop_first())
    }
}

/// Power-up memory: every byte 0xFF.
pub open spec fn blank_ram() -> Seq<u8> {
    Seq::new(65536, |i: int| 0xFFu8)
}

proof fn lemma_hex_concat(bs: Seq<u8>)
    ensures
        hex_concat(bs).len() == 2 * bs.len(),
        forall|j: int|
            0 <= j < bs.len() ==> hex_concat(bs)[2 * j] == hex_char(#[trigger] bs[j] as int / 16)
                && hex_concat(bs)[2 * j + 1] == hex_char(bs[j] as int % 16),
        is_ascii_chars(hex_concat(bs)),
    decreases bs.len(),
{
    if bs.len() > 0 {
        let init = bs.drop_last();
        lemma_hex_concat(init);
        let t = hex_concat(bs);
        assert(t == hex_concat(init) + hex2_seq(bs.last()));
        assert forall|j: int| 0 <= j < bs.len() implies t[2 * j] == hex_char(#[trigger] bs[j] as int / 16)
            && t[2 * j + 1] == hex_char(bs[j] as int % 16) by {
            if j < init.len() {
                assert(init[j] == bs[j]);
            }
        }
        assert forall|i: int| 0 <= i < t.len() implies '\0' <= #[trigger] t[i] <= '\u{7f}' by {
            if i < hex_concat(init).len() {
                assert(t[i] == hex_concat(init)[i]);
            }
        }
    }
}

proof fn lemma_hex_char_digit(d: int)
    requires
        0 <= d < 16,
    ensures
        hex_digit_value(((hex_char(d) as u8) as char)) == Some(d),
        (hex_char(d) as u8) != 0x2B,
        (hex_char(d) as u8) < 0x80,
{
    if d < 10 {
        assert(hex_char(d) == (48 + d) as char);
    } else {
        assert(hex_char(d) == (55 + d) as char);
    }
}

proof fn lemma_decode_hex_concat(bs: Seq<u8>, j: int)
    requires
        0 <= j <= bs.len(),
    ensures
        decode_pairs(encode_utf8(hex_concat(bs)), 2 * j) == Some(
            Ok::<Seq<u8>, LoadError>(bs.subrange(j, bs.len() as int)),
        ),
        encode_utf8(hex_concat(bs)).len() == 2 * bs.len(),
    decreases bs.len() - j,
{
    let t = hex_concat(bs);
    let b = encode_utf8(t);
    lemma_hex_concat(bs);
    is_ascii_chars_encode_utf8(t);
    encode_utf8_valid_utf8(t);
    if j == bs.len() {
        assert(bs.subrange(j, bs.len() as int) =~= Seq::<u8>::empty());
    } else {
        let hi = bs[j] as int / 16;
        let lo = bs[j] as int % 16;
        lemma_hex_char_digit(hi);
        lemma_hex_char_digit(lo);
        assert(b[2 * j] == t[2 * j] as u8);
        assert(b[2 * j + 1] == t[2 * j + 1] as u8);
        is_char_boundary_iff_not_is_continuation_byte(b, 2 * j);
        if 2 * j + 2 < b.len() {
            is_char_boundary_iff_not_is_continuation_byte(b, 2 * j + 2);
            assert(b[2 * j + 2] == t[2 * j + 2] as u8);
            assert(t[2 * (j + 1)] == hex_char(bs[j + 1] as int / 16));
            lemma_hex_char_digit(bs[j + 1] as int / 16);
        } else {
            is_char_boundary_start_end_of_seq(b);
        }
        assert(pair_value(b[2 * j], b[2 * j + 1]) == Some(bs[j]));
        lemma_decode_hex_concat(bs, j + 1);
        assert(seq![bs[j]] + bs.subrange(j + 1, bs.len() as int) =~= bs.subrange(j, bs.len() as int));
    }
}

proof fn lemma_runs_bounds(ram: Seq<u8>, i: int, start: Option<int>)
    requires
        0 <= i <= ram.len(),
        start matches Some(s) ==> 0 <= s < i,
    ensures
        forall|k: int|
            0 <= k < runs_from(ram, i, start).len() ==> 0 <= (#[trigger] runs_from(ram, i, start)[k]).0
                < runs_from(ram, i, start)[k].1 <= ram.len(),
    decreases ram.len() - i,
{
    if i >= ram.len() {
        match start {
            Some(s) => {
                assert(runs_from(ram, i, start) == seq![(s, ram.len() as int)]);
            },
            None => {
                assert(runs_from(ram, i, start) == Seq::<(int, int)>::empty());
            },
        }
    } else {
        if ram[i] != 0xFF {
            match start {
                Some(s) => {
                    lemma_runs_bounds(ram, i + 1, Some(s));
                    assert(runs_from(ram, i, start) == runs_from(ram, i + 1, Some(s)));
                },
                None => {
                    lemma_runs_bounds(ram, i + 1, Some(i));
                    assert(runs_from(ram, i, start) == runs_from(ram, i + 1, Some(i)));
                },
            }
        } else {
            lemma_runs_bounds(ram, i + 1, None);
            match start {
                Some(s) => {
                    let rest = runs_from(ram, i + 1, None);
                    let all = seq![(s, i)] + rest;
                    assert(runs_from(ram, i, start) == all);
                    assert forall|k: int| 0 <= k < all.len() implies 0 <= (#[trigger] all[k]).0 < all[k].1
                        <= ram.len() by {
                        if k > 0 {
                            assert(all[k] == rest[k - 1]);
                        }
                    }
                },
                None => {
                    assert(runs_from(ram, i, start) == runs_from(ram, i + 1, None));
                },
            }
        }
    }
}

proof fn lemma_runs_rebuild(ram: Seq<u8>, i: int, start: Option<int>, m: Seq<u8>)
    requires
        ram.len() == 65536,
        m.len() == 65536,
        0 <= i <= 65536,
        forall|a: int| i <= a < 65536 ==> #[trigger] m[a] == 0xFF,
        match start {
            None => forall|a: int| 0 <= a < i ==> #[trigger] m[a] == ram[a],
            Some(s) => 0 <= s < i && (forall|a: int| 0 <= a < s ==> #[trigger] m[a] == ram[a]) && (
            forall|a: int| s <= a < i ==> #[trigger] m[a] == 0xFF),
        },
    ensures
        apply_runs(m, ram, runs_from(ram, i, start)) == ram,
    decreases 65536 - i,
{
    if i == 65536 {
        match start {
            None => {
                assert(runs_from(ram, i, start) == Seq::<(int, int)>::empty());
                assert(m =~= ram);
            },
            Some(s) => {
                let runs = seq![(s, 65536int)];
                assert(runs_from(ram, i, start) == runs);
                assert(runs.drop_first() =~= Seq::<(int, int)>::empty());
                let c = copy_into(m, ram, s, s, 65536 - s);
                assert(c =~= ram);
                assert(apply_runs(c, ram, runs.drop_first()) == c);
                assert(apply_runs(m, ram, runs) == apply_runs(c, ram, runs.drop_first()));
            },
        }
    } else if ram[i] != 0xFF {
        match start {
            Some(s) => {
                lemma_runs_rebuild(ram, i + 1, Some(s), m);
                assert(runs_from(ram, i, start) == runs_from(ram, i + 1, Some(s)));
            },
            None => {
                lemma_runs_rebuild(ram, i + 1, Some(i), m);
                assert(runs_from(ram, i, start) == runs_from(ram, i + 1, Some(i)));
            },
        }
    } else {
        match start {
            Some(s) => {
                let m2 = copy_into(m, ram, s, s, i - s);
                assert forall|a: int| 0 <= a < i + 1 implies #[trigger] m2[a] == ram[a] by {
                    if a < s {
                        assert(m2[a] == m[a]);
                    } else if a == i {
                        assert(m2[a] == m[a]);
                        assert(m[i] == 0xFF);
                    }
                }
                assert forall|a: int| i + 1 <= a < 65536 implies #[trigger] m2[a] == 0xFF by {
                    assert(m2[a] == m[a]);
                }
                lemma_runs_rebuild(ram, i + 1, None, m2);
                let runs = seq![(s, i)] + runs_from(ram, i + 1, None);
                assert(runs_from(ram, i, start) == runs);
                assert(runs[0] == (s, i));
                assert(runs.drop_first() =~= runs_from(ram, i + 1, None));
                assert(apply_runs(m, ram, runs) == apply_runs(m2, ram, runs.drop_first()));
            },
            None => {
                assert forall|a: int| 0 <= a < i + 1 implies #[trigger] m[a] == ram[a] by {
                    if a == i {
                        assert(m[i] == 0xFF);
                    }
                }
                lemma_runs_rebuild(ram, i + 1, None, m);
                assert(runs_from(ram, i, start) == runs_from(ram, i + 1, None));
            },
        }
    }
}

proof fn lemma_apply_described(m: Seq<u8>, ram: Seq<u8>, segs: Seq<MemorySegment>, runs: Seq<(int, int)>)
    requires
        m.len() == 65536,
        ram.len() == 65536,
        segs.len() == runs.len(),
        forall|k: int|
            0 <= k < segs.len() ==> #[trigger] segs[k].addr == runs[k].0 && segs[k].data@ == hex_concat(
                ram.subrange(runs[k].0, runs[k].1),
            ),
        forall|k: int| 0 <= k < runs.len() ==> 0 <= (#[trigger] runs[k]).0 < runs[k].1 <= 65536,
    ensures
        apply_segments(m, segs) == Some((apply_runs(m, ram, runs), Ok::<(), LoadError>(()))),
    decreases segs.len(),
{
    if segs.len() > 0 {
        let (s, e) = runs[0];
        assert(segs[0].addr == runs[0].0);
        assert(0 <= runs[0].0 < runs[0].1 <= 65536);
        let bs = ram.subrange(s, e);
        lemma_decode_hex_concat(bs, 0);
        assert(bs.subrange(0, bs.len() as int) =~= bs);
        let m2 = copy_into(m, bs, 0, s, bs.len() as int);
        assert(m2 =~= copy_into(m, ram, s, s, e - s));
        let segs2 = segs.drop_first();
        let runs2 = runs.drop_first();
        assert forall|k: int| 0 <= k < segs2.len() implies #[trigger] segs2[k].addr == runs2[k].0
            && segs2[k].data@ == hex_concat(ram.subrange(runs2[k].0, runs2[k].1)) by {
            assert(segs2[k] == segs[k + 1]);
            assert(runs2[k] == runs[k + 1]);
            assert(segs[k + 1].addr == runs[k + 1].0);
        }
        assert forall|k: int| 0 <= k < runs2.len() implies 0 <= (#[trigger] runs2[k]).0 < runs2[k].1
            <= 65536 by {
            assert(runs2[k] == runs[k + 1]);
        }
        lemma_apply_described(m2, ram, segs2, runs2);
    }
}

/// A memory image read back into power-up memory gives the memory it was
/// taken from: applying segments that describe `ram` to all-0xFF memory
/// yields `ram`, with no error.
pub proof fn lemma_memory_image_round_trip(ram: Seq<u8>, segs: Seq<MemorySegment>)
    requires
        ram.len() == 65536,
        describes_memory(segs, ram),
    ensures
        apply_segments(blank_ram(), segs) == Some((ram, Ok::<(), LoadError>(()))),
{
    let runs = memory_runs(ram);
    lemma_runs_bounds(ram, 0, None);
    lemma_apply_described(blank_ram(), ram, segs, runs);
    lemma_runs_rebuild(ram, 0, None, blank_ram());
}

/// Reading the memory image `segs` reaches no hex pair cut inside a
/// multi-byte character before it stops (where `load_memory_segments` would
/// otherwise slice inside a character).
pub open spec fn segments_readable(segs: Seq<MemorySegment>) -> bool
    decreases segs.len(),
{
    if segs.len() == 0 {
        true
    } else {
        let b = encode_utf8(segs[0].data@);
        if b.len() % 2 != 0 {
            true
        } else {
            match decode_pairs(b, 0) {
                None => false,
                Some(Err(_)) => true,
                Some(Ok(_)) => segments_readable(segs.drop_first()),
            }
        }
    }
}

/// Whatever memory it starts from, applying `segs` is defined exactly when
/// they are readable.
pub proof fn lemma_readable_applies(ram: Seq<u8>, segs: Seq<MemorySegment>)
    ensures
        (apply_segments(ram, segs) is Some) == segments_readable(segs),
    decreases segs.len(),
{
    if segs.len() > 0 {
        let seg = segs[0];
        let b = encode_utf8(seg.data@);
        if b.len() % 2 == 0 {
            match decode_pairs(b, 0) {
                Some(Ok(v)) => {
                    let ram2 = if seg.addr + v.len() <= 65536 {
                        copy_into(ram, v, 0, seg.addr as int, v.len() as int)
                    } else {
                        ram
                    };
                    lemma_readable_applies(ram2, segs.drop_first());
                },
                _ => {},
            }
        }
    }
}

/// Whether byte `j` of `b` starts a character (or is the end of `b`).
fn at_char_boundary(b: &[u8], j: usize) -> (r: bool)
    requires
        valid_utf8(b@),
        j <= b@.len(),
    ensures
        r == is_char_boundary(b@, j as int),
{
    proof {
        is_char_boundary_start_end_of_seq(b@);
        if j < b@.len() {
            is_char_boundary_iff_not_is_continuation_byte(b@, j as int);
        }
    }
    j == b.len() || !(0x80 <= b[j] && b[j] <= 0xBF)
}

/// Whether reading the hex pairs of `text` reaches no pair cut inside a
/// character before the first pair that is not a hex byte.
fn pairs_readable(text: &str) -> (r: bool)
    ensures
        r == (decode_pairs(encode_utf8(text@), 0) is Some),
{
    let b = text.as_bytes();
    proof {
        encode_utf8_valid_utf8(text@);
    }
    let n = b.len();
    let mut i: usize = 0;
    while i < n && n - i >= 2
        invariant
            b@ == encode_utf8(text@),
            valid_utf8(b@),
            n == b@.len(),
            i <= n,
            (decode_pairs(b@, 0) is Some) == (decode_pairs(b@, i as int) is Some),
        decreases n - i,
    {
        if !(at_char_boundary(b, i) && at_char_boundary(b, i + 2)) {
            return false;
        }
        let c0 = b[i];
        let c1 = b[i + 1];
        let ok = if c0 == 0x2B {
            crate::program::hex_digit_of_char(c1 as char).is_some()
        } else {
            crate::program::hex_digit_of_char(c0 as char).is_some() && crate::program::hex_digit_of_char(c1 as char).is_some()
        };
        if !ok {
            assert(pair_value(c0, c1) is None);
            return true;
        }
        assert(pair_value(c0, c1) is Some);
        i = i + 2;
    }
    true
}

/// Whether `load_memory_segments` can read `segments` (see
/// `segments_readable` and `lemma_readable_applies`).
pub fn memory_image_readable(segments: &Vec<MemorySegment>) -> (r: bool)
    ensures
        r == segments_readable(segments@),
{
    let mut i: usize = 0;
    assert(segments@.subrange(0, segments@.len() as int) =~= segments@);
    while i < segments.len()
        invariant
            i <= segments@.len(),
            segments_readable(segments@) == segments_readable(segments@.subrange(i as int, segments@.len() as int)),
        decreases segments@.len() - i,
    {
        let ghost rest = segments@.subrange(i as int, segments@.len() as int);
        assert(rest[0] == segments@[i as int]);
        assert(rest.drop_first() =~= segments@.subrange(i + 1, segments@.len() as int));
        let text = segments[i].data.as_str();
        let nbytes = text.as_bytes().len();
        assert(text.spec_bytes() == encode_utf8(text@));
        if nbytes % 2 != 0 {
            return true;
        }
        if !pairs_readable(text) {
            return false;
        }
        match decode_hex_text(text) {
            Err(_) => {
                return true;
            },
            Ok(_) => {},
        }
        i = i + 1;
    }
    assert(segments@.subrange(segments@.len() as int, segments@.len() as int) =~= Seq::<MemorySegment>::empty());
    true
}

} // verus!
