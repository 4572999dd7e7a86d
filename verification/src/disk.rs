//! 8" single-sided single-density disk image: 77 tracks x 26 sectors x 128 bytes.
use vstd::prelude::*;
use vstd::string::StringExecFns;
use crate::dpb::{SECTOR_SIZE, SKEW_TABLE, skew_seq, lemma_skew_table_value};
use crate::text::{push_decimal, dec_seq};

verus! {

/// Size in bytes of a disk image (77 * 26 * 128).
pub const DISK_SIZE: usize = 256256;

/// Physical sector actually addressed: sector 0 is treated as sector 1.
pub open spec fn physical_of(sector: u8) -> int {
    if sector == 0 {
        1
    } else {
        sector as int
    }
}

/// Whether `(track, sector)` names a sector of the image.
pub open spec fn sector_valid(track: u8, sector: u8) -> bool {
    track < 77 && physical_of(sector) <= 26
}

/// Byte offset of a valid sector in the image.
pub open spec fn sector_offset(track: u8, sector: u8) -> int {
    (track as int * 26 + physical_of(sector) - 1) * 128
}

/// The 128 bytes of a sector.
pub open spec fn sector_bytes(d: Seq<u8>, track: u8, sector: u8) -> Seq<u8> {
    d.subrange(sector_offset(track, sector), sector_offset(track, sector) + 128)
}

/// The image `d` with one sector replaced by `buf`.
pub open spec fn with_sector(d: Seq<u8>, track: u8, sector: u8, buf: Seq<u8>) -> Seq<u8> {
    d.subrange(0, sector_offset(track, sector)) + buf + d.subrange(
        sector_offset(track, sector) + 128,
        d.len() as int,
    )
}

/// Text of the error for a track past the last one.
pub open spec fn track_error_text(track: u8) -> Seq<char> {
    "Track "@ + dec_seq(track as nat) + " out of range (0-76)"@
}

/// Text of the error for a sector past the last one.
pub open spec fn sector_error_text(sector: u8) -> Seq<char> {
    "Sector "@ + dec_seq(sector as nat) + " out of range (1-26)"@
}

/// A valid sector lies entirely inside the image.
pub proof fn lemma_sector_in_bounds(track: u8, sector: u8)
    requires
        sector_valid(track, sector),
    ensures
        0 <= sector_offset(track, sector),
        sector_offset(track, sector) + 128 <= DISK_SIZE,
        sector_offset(track, sector) % 128 == 0,
{
    assert(0 <= track as int * 26 + physical_of(sector) - 1 <= 76 * 26 + 25) by (nonlinear_arith)
        requires
            track < 77,
            1 <= physical_of(sector) <= 26,
    ;
    let k = track as int * 26 + physical_of(sector) - 1;
    assert(k * 128 + 128 <= 256256) by (nonlinear_arith)
        requires
            0 <= k <= 2001,
    ;
    assert((k * 128) % 128 == 0) by (nonlinear_arith)
        requires
            0 <= k,
    ;
}

/// Reading a sector that was just written gives back the written bytes.
pub proof fn lemma_read_after_write(d: Seq<u8>, track: u8, sector: u8, buf: Seq<u8>)
    requires
        d.len() == DISK_SIZE,
        buf.len() == 128,
        sector_valid(track, sector),
    ensures
        sector_bytes(with_sector(d, track, sector, buf), track, sector) == buf,
        with_sector(d, track, sector, buf).len() == DISK_SIZE,
{
    lemma_sector_in_bounds(track, sector);
    assert(sector_bytes(with_sector(d, track, sector, buf), track, sector) =~= buf);
}

/// Writing a sector leaves every other sector unchanged.
pub proof fn lemma_write_preserves_other_sectors(
    d: Seq<u8>,
    track: u8,
    sector: u8,
    buf: Seq<u8>,
    track2: u8,
    sector2: u8,
)
    requires
        d.len() == DISK_SIZE,
        buf.len() == 128,
        sector_valid(track, sector),
        sector_valid(track2, sector2),
        sector_offset(track, sector) != sector_offset(track2, sector2),
    ensures
        sector_bytes(with_sector(d, track, sector, buf), track2, sector2) == sector_bytes(
            d,
            track2,
            sector2,
        ),
{
    lemma_sector_in_bounds(track, sector);
    lemma_sector_in_bounds(track2, sector2);
    let o1 = sector_offset(track, sector);
    let o2 = sector_offset(track2, sector2);
    assert(o2 + 128 <= o1 || o1 + 128 <= o2) by (nonlinear_arith)
        requires
            o1 % 128 == 0,
            o2 % 128 == 0,
            o1 != o2,
    ;
    assert(sector_bytes(with_sector(d, track, sector, buf), track2, sector2) =~= sector_bytes(
        d,
        track2,
        sector2,
    ));
}

/// Abstract floppy: its bytes, write-protect tab and modified flag.
pub struct DiskView {
    pub data: Seq<u8>,
    pub protected: bool,
    pub modified: bool,
}

/// A floppy disk image with its write-protect tab and modified flag.
pub struct DiskImage {
    data: Vec<u8>,
    write_protected: bool,
    dirty: bool,
}

impl View for DiskImage {
    type V = Seq<u8>;

    closed spec fn view(&self) -> Seq<u8> {
        self.data@
    }
}

impl DiskImage {
    /// The image holds exactly one disk's worth of bytes.
    pub open spec fn wf(&self) -> bool {
        self@.len() == DISK_SIZE
    }

    /// The whole abstract state of the disk.
    pub open spec fn model(&self) -> DiskView {
        DiskView { data: self@, protected: self.protected(), modified: self.modified() }
    }

    /// The write-protect tab.
    pub closed spec fn protected(&self) -> bool {
        self.write_protected
    }

    /// Modified since it was created or last saved.
    pub closed spec fn modified(&self) -> bool {
        self.dirty
    }

    /// New disk filled with 0xE5 (CP/M convention for unused sectors).
    pub fn new_formatted() -> (r: Self)
        ensures
            r.wf(),
            r@ == Seq::new(DISK_SIZE as nat, |i: int| 0xE5u8),
            !r.protected(),
            r.modified(),
    {
        let r = Self { data: vec![0xE5u8; DISK_SIZE], write_protected: false, dirty: true };
        assert(r@ =~= Seq::new(DISK_SIZE as nat, |i: int| 0xE5u8));
        r
    }

    /// Image from raw bytes read from a file; the size must be exactly one disk.
    pub fn from_bytes(data: Vec<u8>) -> (r: Result<Self, String>)
        ensures
            r is Ok <==> data@.len() == DISK_SIZE,
            r matches Ok(d) ==> d.wf() && d@ == data@ && !d.protected() && !d.modified(),
            r matches Err(e) ==> e@ == "Disk image size mismatch: expected 256256 bytes, got "@
                + dec_seq(data@.len()),
    {
        if data.len() != DISK_SIZE {
            let mut e = String::from_str("Disk image size mismatch: expected 256256 bytes, got ");
            push_decimal(&mut e, data.len() as u64);
            return Err(e);
        }
        Ok(Self { data, write_protected: false, dirty: false })
    }

    /// Record that the image has been written out.
    pub fn mark_saved(&mut self)
        ensures
            final(self)@ == old(self)@,
            final(self).wf() == old(self).wf(),
            final(self).protected() == old(self).protected(),
            !final(self).modified(),
    {
        self.dirty = false;
    }

    pub fn is_dirty(&self) -> (r: bool)
        ensures
            r == self.modified(),
    {
        self.dirty
    }

    pub fn is_write_protected(&self) -> (r: bool)
        ensures
            r == self.protected(),
    {
        self.write_protected
    }

    pub fn set_write_protected(&mut self, wp: bool)
        ensures
            final(self)@ == old(self)@,
            final(self).wf() == old(self).wf(),
            final(self).protected() == wp,
            final(self).modified() == old(self).modified(),
    {
        self.write_protected = wp;
    }

    /// Read a physical sector. Sector 0 is treated as sector 1.
    pub fn read_sector(&self, track: u8, sector: u8) -> (r: Result<[u8; SECTOR_SIZE], String>)
        requires
            self.wf(),
        ensures
            r is Ok <==> sector_valid(track, sector),
            r matches Ok(buf) ==> buf@ == sector_bytes(self@, track, sector),
            r matches Err(e) ==> e@ == (if track >= 77 {
                track_error_text(track)
            } else {
                sector_error_text(sector)
            }),
    {
        if track >= 77 {
            return Err(track_error(track));
        }
        let physical_sector = if sector == 0 { 1 } else { sector };
        if physical_sector > 26 {
            return Err(sector_error(sector));
        }
        proof {
            lemma_sector_in_bounds(track, sector);
        }
        let offset = (track as usize * 26 + (physical_sector - 1) as usize) * 128;
        let mut buf = [0u8; SECTOR_SIZE];
        let mut i: usize = 0;
        while i < SECTOR_SIZE
            invariant
                i <= SECTOR_SIZE,
                offset == sector_offset(track, sector),
                offset + 128 <= self.data@.len(),
                buf@.len() == 128,
                forall|j: int| 0 <= j < i ==> buf@[j] == self.data@[offset + j],
            decreases SECTOR_SIZE - i,
        {
            buf[i] = self.data[offset + i];
            i = i + 1;
        }
        assert(buf@ =~= sector_bytes(self@, track, sector));
        Ok(buf)
    }

    /// Write a physical sector. Sector 0 is treated as sector 1.
    pub fn write_sector(&mut self, track: u8, sector: u8, data: &[u8; SECTOR_SIZE]) -> (r: Result<
        (),
        String,
    >)
        requires
            old(self).wf(),
        ensures
            final(self).wf(),
            r is Ok <==> !old(self).protected() && sector_valid(track, sector),
            r is Ok ==> final(self)@ == with_sector(old(self)@, track, sector, data@)
                && final(self).modified(),
            r is Err ==> final(self)@ == old(self)@ && final(self).modified()
                == old(self).modified(),
            final(self).protected() == old(self).protected(),
            r matches Err(e) ==> e@ == (if old(self).protected() {
                "Disk is write-protected"@
            } else if track >= 77 {
                track_error_text(track)
            } else {
                sector_error_text(sector)
            }),
    {
        if self.write_protected {
            return Err(String::from_str("Disk is write-protected"));
        }
        if track >= 77 {
            return Err(track_error(track));
        }
        let physical_sector = if sector == 0 { 1 } else { sector };
        if physical_sector > 26 {
            return Err(sector_error(sector));
        }
        proof {
            lemma_sector_in_bounds(track, sector);
        }
        let offset = (track as usize * 26 + (physical_sector - 1) as usize) * 128;
        let ghost old_data = self.data@;
        let mut i: usize = 0;
        while i < SECTOR_SIZE
            invariant
                i <= SECTOR_SIZE,
                offset == sector_offset(track, sector),
                offset + 128 <= old_data.len(),
                old_data.len() == DISK_SIZE,
                !self.write_protected,
                self.data@.len() == old_data.len(),
                forall|k: int|
                    0 <= k < old_data.len() && !(offset <= k < offset + i) ==> self.data@[k]
                        == old_data[k],
                forall|k: int| offset <= k < offset + i ==> self.data@[k] == data@[k - offset],
            decreases SECTOR_SIZE - i,
        {
            self.data.set(offset + i, data[i]);
            i = i + 1;
        }
        self.dirty = true;
        assert(self.data@ =~= with_sector(old_data, track, sector, data@));
        Ok(())
    }

    /// The raw image bytes.
    pub fn data(&self) -> (r: &[u8])
        ensures
            r@ == self@,
    {
        self.data.as_slice()
    }

    /// The raw image bytes for modification; marks the image modified.
    pub fn data_mut(&mut self) -> (r: &mut [u8])
        ensures
            r@ == old(self)@,
            final(self)@ == final(r)@,
            final(self).protected() == old(self).protected(),
            final(self).modified(),
            final(self).wf() <==> final(r)@.len() == DISK_SIZE,
    {
        self.dirty = true;
        self.data.as_mut_slice()
    }
}

fn track_error(track: u8) -> (e: String)
    ensures
        e@ == track_error_text(track),
{
    let mut e = String::from_str("Track ");
    push_decimal(&mut e, track as u64);
    e.append(" out of range (0-76)");
    e
}

fn sector_error(sector: u8) -> (e: String)
    ensures
        e@ == sector_error_text(sector),
{
    let mut e = String::from_str("Sector ");
    push_decimal(&mut e, sector as u64);
    e.append(" out of range (1-26)");
    e
}

/// Physical sector of a CP/M logical sector: the 6:1 interleave for 0-25, else `logical + 1`.
pub open spec fn spec_logical_to_physical(logical: u8) -> int {
    if logical < 26 {
        skew_seq()[logical as int] as int
    } else {
        logical + 1
    }
}

/// Convert CP/M logical sector (0-25) to physical sector (1-26) using 6:1 interleave.
pub fn logical_to_physical(logical: u8) -> (p: u8)
    requires
        logical < 255,
    ensures
        p == spec_logical_to_physical(logical),
{
    proof {
        lemma_skew_table_value();
    }
    if (logical as usize) < SKEW_TABLE.len() {
        SKEW_TABLE[logical as usize]
    } else {
        logical + 1
    }
}

} // verus!
