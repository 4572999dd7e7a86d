//! CP/M 2.2 disk parameter block for the IBM 3740 8" single-density format.
use vstd::prelude::*;

verus! {

/// Sectors per track (128-byte sectors)
pub const SPT: u16 = 26;
/// Block shift mask for 1024-byte allocation blocks
pub const BLM: u8 = 7;
/// Maximum data block number
pub const DSM: u16 = 242;
/// Maximum directory entry number (entries 0-63)
pub const DRM: u16 = 63;
/// Number of reserved (system) tracks
pub const OFF: u16 = 2;
/// Bytes per sector
pub const SECTOR_SIZE: usize = 128;
/// Bytes per allocation block
pub const BLOCK_SIZE: usize = 1024;
/// Total tracks per disk
pub const TOTAL_TRACKS: u8 = 77;

/// Standard IBM 3740 6:1 interleave table, logical sector 0-25 to physical sector 1-26.
pub const SKEW_TABLE: [u8; 26] = [
    1, 7, 13, 19, 25, 5, 11, 17, 23, 3, 9, 15, 21, 2, 8, 14, 20, 26, 6, 12, 18, 24, 4,
    10, 16, 22,
];

/// The standard 6:1 interleave, logical sector (index) to physical sector (value).
pub open spec fn skew_seq() -> Seq<u8> {
    seq![1u8, 7, 13, 19, 25, 5, 11, 17, 23, 3, 9, 15, 21, 2, 8, 14, 20, 26, 6, 12, 18, 24, 4,
        10, 16, 22]
}

/// The table holds exactly the interleave sequence.
pub proof fn lemma_skew_table_value()
    ensures
        SKEW_TABLE@ == skew_seq(),
{
}

/// The interleave maps the logical sectors 0-25 one-to-one onto the physical sectors 1-26.
pub proof fn lemma_skew_is_permutation()
    ensures
        skew_seq().len() == 26,
        forall|i: int| 0 <= i < 26 ==> 1 <= #[trigger] skew_seq()[i] <= 26,
        forall|i: int, j: int| 0 <= i < 26 && 0 <= j < 26 && i != j ==> skew_seq()[i] != skew_seq()[j],
        forall|p: u8| 1 <= p <= 26 ==> #[trigger] skew_seq().contains(p),
{
    let s = skew_seq();
    assert(forall|i: int| 0 <= i < 26 ==> 1 <= #[trigger] s[i] <= 26) by {
        assert(s =~= seq![1u8, 7, 13, 19, 25, 5, 11, 17, 23, 3, 9, 15, 21, 2, 8, 14, 20, 26, 6, 12, 18, 24, 4, 10, 16, 22]);
    }
    // inverse table, physical p (1-26) to its logical sector
    let inv = seq![0int, 13, 9, 22, 5, 18, 1, 14, 10, 23, 6, 19, 2, 15, 11, 24, 7, 20, 3, 16, 12, 25, 8, 21, 4, 17];
    assert(forall|i: int| 0 <= i < 26 ==> inv[s[i] - 1] == i) by {
        assert(inv[s[0] - 1] == 0);
        assert(inv[s[1] - 1] == 1);
        assert(inv[s[2] - 1] == 2);
        assert(inv[s[3] - 1] == 3);
        assert(inv[s[4] - 1] == 4);
        assert(inv[s[5] - 1] == 5);
        assert(inv[s[6] - 1] == 6);
        assert(inv[s[7] - 1] == 7);
        assert(inv[s[8] - 1] == 8);
        assert(inv[s[9] - 1] == 9);
        assert(inv[s[10] - 1] == 10);
        assert(inv[s[11] - 1] == 11);
        assert(inv[s[12] - 1] == 12);
        assert(inv[s[13] - 1] == 13);
        assert(inv[s[14] - 1] == 14);
        assert(inv[s[15] - 1] == 15);
        assert(inv[s[16] - 1] == 16);
        assert(inv[s[17] - 1] == 17);
        assert(inv[s[18] - 1] == 18);
        assert(inv[s[19] - 1] == 19);
        assert(inv[s[20] - 1] == 20);
        assert(inv[s[21] - 1] == 21);
        assert(inv[s[22] - 1] == 22);
        assert(inv[s[23] - 1] == 23);
        assert(inv[s[24] - 1] == 24);
        assert(inv[s[25] - 1] == 25);
    }
    assert forall|p: u8| 1 <= p <= 26 implies #[trigger] s.contains(p) by {
        assert(forall|q: int| 0 <= q < 26 ==> #[trigger] s[inv[q]] == q + 1) by {
            assert(s[inv[0]] == 1);
            assert(s[inv[1]] == 2);
            assert(s[inv[2]] == 3);
            assert(s[inv[3]] == 4);
            assert(s[inv[4]] == 5);
            assert(s[inv[5]] == 6);
            assert(s[inv[6]] == 7);
            assert(s[inv[7]] == 8);
            assert(s[inv[8]] == 9);
            assert(s[inv[9]] == 10);
            assert(s[inv[10]] == 11);
            assert(s[inv[11]] == 12);
            assert(s[inv[12]] == 13);
            assert(s[inv[13]] == 14);
            assert(s[inv[14]] == 15);
            assert(s[inv[15]] == 16);
            assert(s[inv[16]] == 17);
            assert(s[inv[17]] == 18);
            assert(s[inv[18]] == 19);
            assert(s[inv[19]] == 20);
            assert(s[inv[20]] == 21);
            assert(s[inv[21]] == 22);
            assert(s[inv[22]] == 23);
            assert(s[inv[23]] == 24);
            assert(s[inv[24]] == 25);
            assert(s[inv[25]] == 26);
        }
        let i = inv[p - 1];
        assert(s[inv[p - 1]] == p);
        assert(0 <= i < 26);
        assert(s[i] == p);
    }
}

} // verus!
