//! The binary state file: five four-byte big-endian fields at fixed
//! byte offsets.
//!
//! | offset | field        | meaning                                   |
//! |--------|--------------|-------------------------------------------|
//! | 0      | counter      | accumulated edge count, in scale units    |
//! | 4      | scale        | increment applied per rising edge         |
//! | 8      | pressure     | last computed analog-derived value        |
//! | 12     | baseline     | subtracted baseline for the pressure      |
//! | 16     | coefficient  | multiplier for the pressure               |
//!
//! Field values are carried as the `u32` bit patterns of the four
//! stored bytes. [`StateImage`] models the file's contents as a byte
//! sequence; the process around the library reads the file into an
//! image and writes images or single fields back.

use crate::codec::{
    lemma_word_bytes_roundtrip, spec_word_from_bytes, spec_word_to_bytes, word_from_bytes,
    word_to_bytes,
};
use vstd::prelude::*;

verus! {

pub const COUNTER_OFFSET: usize = 0;

pub const SCALE_OFFSET: usize = 4;

pub const PRESSURE_OFFSET: usize = 8;

pub const BASELINE_OFFSET: usize = 12;

pub const COEFFICIENT_OFFSET: usize = 16;

/// Length of a fully initialized state file.
pub const STATE_LEN: usize = 20;

/// Bit pattern of the counter's default, the float value zero.
pub const DEFAULT_COUNTER_BITS: u32 = 0x0000_0000;

/// Bit pattern of the scale's default, the float value one.
pub const DEFAULT_SCALE_BITS: u32 = 0x3F80_0000;

/// Bit pattern of the pressure's default, the float value zero.
pub const DEFAULT_PRESSURE_BITS: u32 = 0x0000_0000;

/// Bit pattern of the baseline's default, the float value four.
pub const DEFAULT_BASELINE_BITS: u32 = 0x4080_0000;

/// Bit pattern of the coefficient's default, the float value five eighths.
pub const DEFAULT_COEFFICIENT_BITS: u32 = 0x3F20_0000;

/// The five byte offsets at which a field may start.
pub open spec fn valid_field_offset(off: int) -> bool {
    off == COUNTER_OFFSET || off == SCALE_OFFSET || off == PRESSURE_OFFSET || off
        == BASELINE_OFFSET || off == COEFFICIENT_OFFSET
}

/// The default bit pattern seeded into the field at `off` on first
/// initialization.
pub open spec fn spec_default_bits(off: int) -> u32
    recommends
        valid_field_offset(off),
{
    if off == SCALE_OFFSET {
        DEFAULT_SCALE_BITS
    } else if off == BASELINE_OFFSET {
        DEFAULT_BASELINE_BITS
    } else if off == COEFFICIENT_OFFSET {
        DEFAULT_COEFFICIENT_BITS
    } else {
        0u32
    }
}

/// The field stored at byte offset `off`, if the image reaches that far;
/// `None` exactly when the image is too short for the whole field.
pub open spec fn spec_read_field(s: Seq<u8>, off: int) -> Option<u32> {
    if 0 <= off && off + 4 <= s.len() {
        Some(spec_word_from_bytes(s.subrange(off, off + 4)))
    } else {
        None
    }
}

/// The image after a single four-byte write at byte offset `off`: the
/// four bytes of `w` land at `off`, every other existing byte is kept,
/// and any gap a write past the end leaves is zero-filled, as a file
/// write past the end of a sparse file leaves a hole of zero bytes.
pub open spec fn spec_write_field(s: Seq<u8>, off: int, w: u32) -> Seq<u8>
    recommends
        0 <= off,
{
    Seq::new(
        if s.len() >= off + 4 {
            s.len()
        } else {
            (off + 4) as nat
        },
        |i: int|
            (if off <= i < off + 4 {
                spec_word_to_bytes(w)[i - off]
            } else if i < s.len() {
                s[i]
            } else {
                0u8
            }),
    )
}

/// The image after first-run initialization: every field whose four
/// bytes the image did not fully contain is written with its default,
/// each field judged against the length the image had on entry, so a
/// second run writes nothing.
pub open spec fn spec_initialize(s: Seq<u8>) -> Seq<u8> {
    let n = s.len() as int;
    let s0 = if n < COUNTER_OFFSET + 4 {
        spec_write_field(s, COUNTER_OFFSET as int, DEFAULT_COUNTER_BITS)
    } else {
        s
    };
    let s1 = if n < SCALE_OFFSET + 4 {
        spec_write_field(s0, SCALE_OFFSET as int, DEFAULT_SCALE_BITS)
    } else {
        s0
    };
    let s2 = if n < PRESSURE_OFFSET + 4 {
        spec_write_field(s1, PRESSURE_OFFSET as int, DEFAULT_PRESSURE_BITS)
    } else {
        s1
    };
    let s3 = if n < BASELINE_OFFSET + 4 {
        spec_write_field(s2, BASELINE_OFFSET as int, DEFAULT_BASELINE_BITS)
    } else {
        s2
    };
    if n < COEFFICIENT_OFFSET + 4 {
        spec_write_field(s3, COEFFICIENT_OFFSET as int, DEFAULT_COEFFICIENT_BITS)
    } else {
        s3
    }
}

/// An in-memory image of the state file's bytes.
pub struct StateImage {
    bytes: Vec<u8>,
}

impl View for StateImage {
    type V = Seq<u8>;

    closed spec fn view(&self) -> Seq<u8> {
        self.bytes@
    }
}

impl StateImage {
    /// Wrap raw file contents as an image.
    pub fn from_bytes(bytes: Vec<u8>) -> (img: Self)
        ensures
            img@ == bytes@,
    {
        StateImage { bytes }
    }

    /// The image's raw bytes, as they would be laid out in the file.
    pub fn bytes(&self) -> (b: &Vec<u8>)
        ensures
            b@ == self@,
    {
        &self.bytes
    }

    pub fn len(&self) -> (n: usize)
        ensures
            n == self@.len(),
    {
        self.bytes.len()
    }

    /// Read the four-byte field at `offset`; `None` exactly when the
    /// image does not reach the end of the field, as a read past the
    /// end of a truncated file fails.
    pub fn read_field(&self, offset: usize) -> (r: Option<u32>)
        ensures
            r == spec_read_field(self@, offset as int),
    {
        if self.bytes.len() >= 4 && offset <= self.bytes.len() - 4 {
            let b0 = self.bytes[offset];
            let b1 = self.bytes[offset + 1];
            let b2 = self.bytes[offset + 2];
            let b3 = self.bytes[offset + 3];
            let w = word_from_bytes(b0, b1, b2, b3);
            proof {
                assert(self@.subrange(offset as int, offset as int + 4) =~= seq![b0, b1, b2, b3]);
            }
            Some(w)
        } else {
            None
        }
    }

    /// Write the four bytes of `value` at `offset`, extending the image
    /// with a zero-filled gap if it ends before `offset`.
    pub fn write_field(&mut self, offset: usize, value: u32)
        requires
            offset <= usize::MAX - 4,
        ensures
            final(self)@ == spec_write_field(old(self)@, offset as int, value),
    {
        let b = word_to_bytes(value);
        while self.bytes.len() < offset
            invariant
                offset <= usize::MAX - 4,
                old(self)@.len() < offset ==> old(self)@.len() <= self.bytes@.len()
                    <= offset,
                old(self)@.len() >= offset ==> self.bytes@ == old(self)@,
                forall|j: int|
                    0 <= j < self.bytes@.len() ==> self.bytes@[j] == (if j < old(self)@.len() {
                        old(self)@[j]
                    } else {
                        0u8
                    }),
            decreases offset - self.bytes.len(),
        {
            self.bytes.push(0u8);
        }
        let mut i: usize = 0;
        while i < 4
            invariant
                offset <= usize::MAX - 4,
                b@ == spec_word_to_bytes(value),
                i <= 4,
                self.bytes@.len() == (if old(self)@.len() >= offset + i {
                    old(self)@.len() as int
                } else {
                    offset + i
                }),
                forall|j: int|
                    0 <= j < self.bytes@.len() ==> self.bytes@[j] == (if offset <= j < offset
                        + i {
                        spec_word_to_bytes(value)[j - offset]
                    } else if j < old(self)@.len() {
                        old(self)@[j]
                    } else {
                        0u8
                    }),
            decreases 4 - i,
        {
            if offset + i < self.bytes.len() {
                self.bytes.set(offset + i, b[i]);
            } else {
                self.bytes.push(b[i]);
            }
            i += 1;
        }
        proof {
            assert(self.bytes@ =~= spec_write_field(old(self)@, offset as int, value));
        }
    }

    /// First-run initialization: seed the default into every field whose
    /// four bytes the image does not yet fully contain, judged against
    /// the length the image had on entry, and leave all other bytes
    /// untouched.
    pub fn initialize(&mut self)
        ensures
            final(self)@ == spec_initialize(old(self)@),
    {
        let n = self.bytes.len();
        if n < COUNTER_OFFSET + 4 {
            self.write_field(COUNTER_OFFSET, DEFAULT_COUNTER_BITS);
        }
        if n < SCALE_OFFSET + 4 {
            self.write_field(SCALE_OFFSET, DEFAULT_SCALE_BITS);
        }
        if n < PRESSURE_OFFSET + 4 {
            self.write_field(PRESSURE_OFFSET, DEFAULT_PRESSURE_BITS);
        }
        if n < BASELINE_OFFSET + 4 {
            self.write_field(BASELINE_OFFSET, DEFAULT_BASELINE_BITS);
        }
        if n < COEFFICIENT_OFFSET + 4 {
            self.write_field(COEFFICIENT_OFFSET, DEFAULT_COEFFICIENT_BITS);
        }
    }
}

/// A write leaves the image exactly long enough for the field it wrote,
/// and never shortens it.
pub proof fn lemma_write_field_len(s: Seq<u8>, off: int, w: u32)
    requires
        0 <= off,
    ensures
        spec_write_field(s, off, w).len() == (if s.len() >= off + 4 {
            s.len() as int
        } else {
            off + 4
        }),
{
}

/// Reading a field back at the offset it was just written returns the
/// exact written value: the store round-trips every bit pattern.
pub proof fn lemma_write_read_roundtrip(s: Seq<u8>, off: int, w: u32)
    requires
        0 <= off,
    ensures
        spec_read_field(spec_write_field(s, off, w), off) == Some(w),
{
    lemma_word_bytes_roundtrip(w);
    assert(spec_write_field(s, off, w).subrange(off, off + 4) =~= spec_word_to_bytes(w));
}

/// A write leaves every field it does not overlap exactly as it was.
pub proof fn lemma_write_preserves_disjoint_field(s: Seq<u8>, off1: int, w: u32, off2: int)
    requires
        0 <= off1,
        0 <= off2,
        off1 + 4 <= off2 || off2 + 4 <= off1,
        off2 + 4 <= s.len(),
    ensures
        spec_read_field(spec_write_field(s, off1, w), off2) == spec_read_field(s, off2),
{
    assert(spec_write_field(s, off1, w).subrange(off2, off2 + 4) =~= s.subrange(off2, off2 + 4));
}

/// Writes to two disjoint fields commute: the image does not depend on
/// which of the two monitors' updates lands first.
pub proof fn lemma_disjoint_writes_commute(s: Seq<u8>, off1: int, w1: u32, off2: int, w2: u32)
    requires
        0 <= off1,
        0 <= off2,
        off1 + 4 <= off2 || off2 + 4 <= off1,
    ensures
        spec_write_field(spec_write_field(s, off1, w1), off2, w2) == spec_write_field(
            spec_write_field(s, off2, w2),
            off1,
            w1,
        ),
{
    assert(spec_write_field(spec_write_field(s, off1, w1), off2, w2) =~= spec_write_field(
        spec_write_field(s, off2, w2),
        off1,
        w1,
    ));
}

/// Concurrent updates of the counter and the pressure never corrupt
/// each other: whichever of the two four-byte writes lands first, each
/// field afterwards holds exactly the value written to it.
pub proof fn lemma_concurrent_updates_leave_both_fields_intact(
    s: Seq<u8>,
    counter_bits: u32,
    pressure_bits: u32,
)
    ensures
        spec_write_field(
            spec_write_field(s, COUNTER_OFFSET as int, counter_bits),
            PRESSURE_OFFSET as int,
            pressure_bits,
        ) == spec_write_field(
            spec_write_field(s, PRESSURE_OFFSET as int, pressure_bits),
            COUNTER_OFFSET as int,
            counter_bits,
        ),
        spec_read_field(
            spec_write_field(
                spec_write_field(s, COUNTER_OFFSET as int, counter_bits),
                PRESSURE_OFFSET as int,
                pressure_bits,
            ),
            COUNTER_OFFSET as int,
        ) == Some(counter_bits),
        spec_read_field(
            spec_write_field(
                spec_write_field(s, COUNTER_OFFSET as int, counter_bits),
                PRESSURE_OFFSET as int,
                pressure_bits,
            ),
            PRESSURE_OFFSET as int,
        ) == Some(pressure_bits),
{
    let s1 = spec_write_field(s, COUNTER_OFFSET as int, counter_bits);
    lemma_disjoint_writes_commute(
        s,
        COUNTER_OFFSET as int,
        counter_bits,
        PRESSURE_OFFSET as int,
        pressure_bits,
    );
    lemma_write_read_roundtrip(s1, PRESSURE_OFFSET as int, pressure_bits);
    lemma_write_read_roundtrip(s, COUNTER_OFFSET as int, counter_bits);
    lemma_write_field_len(s, COUNTER_OFFSET as int, counter_bits);
    lemma_write_preserves_disjoint_field(
        s1,
        PRESSURE_OFFSET as int,
        pressure_bits,
        COUNTER_OFFSET as int,
    );
}

/// An initialized image reaches the end of the last field, and keeps
/// any further bytes it already had.
pub proof fn lemma_initialize_len(s: Seq<u8>)
    ensures
        spec_initialize(s).len() == (if s.len() >= STATE_LEN {
            s.len() as int
        } else {
            STATE_LEN as int
        }),
{
}

/// Initialization settles every field: a field whose four bytes were
/// all present keeps its stored value, and every other field reads back
/// as its default.
pub proof fn lemma_initialize_reads(s: Seq<u8>, off: int)
    requires
        valid_field_offset(off),
    ensures
        spec_read_field(spec_initialize(s), off) == (if s.len() >= off + 4 {
            spec_read_field(s, off)
        } else {
            Some(spec_default_bits(off))
        }),
{
    let n = s.len() as int;
    let s0 = if n < COUNTER_OFFSET + 4 {
        spec_write_field(s, COUNTER_OFFSET as int, DEFAULT_COUNTER_BITS)
    } else {
        s
    };
    let s1 = if n < SCALE_OFFSET + 4 {
        spec_write_field(s0, SCALE_OFFSET as int, DEFAULT_SCALE_BITS)
    } else {
        s0
    };
    let s2 = if n < PRESSURE_OFFSET + 4 {
        spec_write_field(s1, PRESSURE_OFFSET as int, DEFAULT_PRESSURE_BITS)
    } else {
        s1
    };
    let s3 = if n < BASELINE_OFFSET + 4 {
        spec_write_field(s2, BASELINE_OFFSET as int, DEFAULT_BASELINE_BITS)
    } else {
        s2
    };
    let s4 = if n < COEFFICIENT_OFFSET + 4 {
        spec_write_field(s3, COEFFICIENT_OFFSET as int, DEFAULT_COEFFICIENT_BITS)
    } else {
        s3
    };
    assert(spec_initialize(s) == s4);
    if s.len() >= off + 4 {
        // No write ever lands at a complete field: each of the five
        // steps either writes a different offset or writes nothing.
        if n < COUNTER_OFFSET + 4 && off != COUNTER_OFFSET {
            lemma_write_preserves_disjoint_field(s, COUNTER_OFFSET as int, DEFAULT_COUNTER_BITS, off);
        }
        if n < SCALE_OFFSET + 4 && off != SCALE_OFFSET {
            lemma_write_preserves_disjoint_field(s0, SCALE_OFFSET as int, DEFAULT_SCALE_BITS, off);
        }
        if n < PRESSURE_OFFSET + 4 && off != PRESSURE_OFFSET {
            lemma_write_preserves_disjoint_field(s1, PRESSURE_OFFSET as int, DEFAULT_PRESSURE_BITS, off);
        }
        if n < BASELINE_OFFSET + 4 && off != BASELINE_OFFSET {
            lemma_write_preserves_disjoint_field(s2, BASELINE_OFFSET as int, DEFAULT_BASELINE_BITS, off);
        }
        if n < COEFFICIENT_OFFSET + 4 && off != COEFFICIENT_OFFSET {
            lemma_write_preserves_disjoint_field(s3, COEFFICIENT_OFFSET as int, DEFAULT_COEFFICIENT_BITS, off);
        }
    } else {
        // The field's own write happens, and every later write is at a
        // strictly larger offset, so the default stays in place.
        if off == COUNTER_OFFSET {
            lemma_write_read_roundtrip(s, COUNTER_OFFSET as int, DEFAULT_COUNTER_BITS);
            lemma_write_preserves_disjoint_field(s0, SCALE_OFFSET as int, DEFAULT_SCALE_BITS, off);
            lemma_write_preserves_disjoint_field(s1, PRESSURE_OFFSET as int, DEFAULT_PRESSURE_BITS, off);
            lemma_write_preserves_disjoint_field(s2, BASELINE_OFFSET as int, DEFAULT_BASELINE_BITS, off);
            lemma_write_preserves_disjoint_field(s3, COEFFICIENT_OFFSET as int, DEFAULT_COEFFICIENT_BITS, off);
        } else if off == SCALE_OFFSET {
            lemma_write_read_roundtrip(s0, SCALE_OFFSET as int, DEFAULT_SCALE_BITS);
            lemma_write_preserves_disjoint_field(s1, PRESSURE_OFFSET as int, DEFAULT_PRESSURE_BITS, off);
            lemma_write_preserves_disjoint_field(s2, BASELINE_OFFSET as int, DEFAULT_BASELINE_BITS, off);
            lemma_write_preserves_disjoint_field(s3, COEFFICIENT_OFFSET as int, DEFAULT_COEFFICIENT_BITS, off);
        } else if off == PRESSURE_OFFSET {
            lemma_write_read_roundtrip(s1, PRESSURE_OFFSET as int, DEFAULT_PRESSURE_BITS);
            lemma_write_preserves_disjoint_field(s2, BASELINE_OFFSET as int, DEFAULT_BASELINE_BITS, off);
            lemma_write_preserves_disjoint_field(s3, COEFFICIENT_OFFSET as int, DEFAULT_COEFFICIENT_BITS, off);
        } else if off == BASELINE_OFFSET {
            lemma_write_read_roundtrip(s2, BASELINE_OFFSET as int, DEFAULT_BASELINE_BITS);
            lemma_write_preserves_disjoint_field(s3, COEFFICIENT_OFFSET as int, DEFAULT_COEFFICIENT_BITS, off);
        } else {
            lemma_write_read_roundtrip(s3, COEFFICIENT_OFFSET as int, DEFAULT_COEFFICIENT_BITS);
        }
    }
}

/// Initialization never discards data: every byte at or past the end
/// of the last field is kept exactly as it was.
pub proof fn lemma_initialize_keeps_tail(s: Seq<u8>, i: int)
    requires
        STATE_LEN <= i < s.len(),
    ensures
        spec_initialize(s)[i] == s[i],
{
}

/// Initialization is idempotent: running it against an image it has
/// already settled changes nothing.
pub proof fn lemma_initialize_idempotent(s: Seq<u8>)
    ensures
        spec_initialize(spec_initialize(s)) == spec_initialize(s),
{
    lemma_initialize_len(s);
}

/// Initialization is incremental: against an image holding exactly the
/// first three complete fields, it leaves those twelve bytes untouched
/// and appends only the defaults of the two missing fields.
pub proof fn lemma_initialize_incremental(s: Seq<u8>)
    requires
        s.len() == BASELINE_OFFSET,
    ensures
        spec_initialize(s).len() == STATE_LEN,
        spec_initialize(s).subrange(0, BASELINE_OFFSET as int) == s,
        spec_read_field(spec_initialize(s), BASELINE_OFFSET as int) == Some(DEFAULT_BASELINE_BITS),
        spec_read_field(spec_initialize(s), COEFFICIENT_OFFSET as int) == Some(
            DEFAULT_COEFFICIENT_BITS,
        ),
{
    lemma_initialize_len(s);
    lemma_initialize_reads(s, BASELINE_OFFSET as int);
    lemma_initialize_reads(s, COEFFICIENT_OFFSET as int);
    assert(spec_initialize(s).subrange(0, BASELINE_OFFSET as int) =~= s);
}

} // verus!
