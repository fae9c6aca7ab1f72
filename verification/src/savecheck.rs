//! Palworld .sav integrity check.
//!
//! A compressed Palworld save has a small header:
//!   bytes 0..4  = uncompressed size (u32 LE)
//!   bytes 4..8  = compressed size   (u32 LE)
//!   bytes 8..11 = magic "PlZ"
//!   byte  11    = save format tag (0x30 / 0x31 / 0x32)
//!
//! The classic corruption from copying Level.sav mid-autosave ("too many null bytes")
//! produces a file that does NOT carry the PlZ magic, so this catches it before we
//! trust the snapshot.
use vstd::prelude::*;

verus! {

/// The save magic `PlZ`.
pub open spec fn save_magic() -> Seq<u8> {
    seq![0x50u8, 0x6cu8, 0x5au8]
}

/// A save file carries the `PlZ` magic at offset 8 and is at least 12 bytes long.
pub open spec fn valid_sav(data: Seq<u8>) -> bool {
    data.len() >= 12 && data.subrange(8, 11) == save_magic()
}

pub fn is_valid_palworld_sav(data: &[u8]) -> (r: bool)
    ensures
        r == valid_sav(data@),
{
    if data.len() < 12 {
        return false;
    }
    let ok = data[8] == 0x50u8 && data[9] == 0x6cu8 && data[10] == 0x5au8;
    proof {
        if ok {
            assert(data@.subrange(8, 11) == save_magic());
        } else {
            assert(data@.subrange(8, 11)[0] == data@[8]);
            assert(data@.subrange(8, 11)[1] == data@[9]);
            assert(data@.subrange(8, 11)[2] == data@[10]);
        }
    }
    ok
}

/// Number of zero bytes in `s`.
pub open spec fn zero_count(s: Seq<u8>) -> nat
    decreases s.len(),
{
    if s.len() == 0 {
        0
    } else {
        zero_count(s.drop_last()) + if s.last() == 0 {
            1nat
        } else {
            0nat
        }
    }
}

/// The part of a file the null check looks at: its first 4096 bytes.
pub open spec fn null_sample(data: Seq<u8>) -> Seq<u8> {
    if data.len() <= 4096 {
        data
    } else {
        data.take(4096)
    }
}

/// An empty file, or one whose sample is more than 90% zero bytes (in whole percent,
/// rounded down).
pub open spec fn null_garbage(data: Seq<u8>) -> bool {
    data.len() == 0 || zero_count(null_sample(data)) * 100 / null_sample(data).len() > 90
}

/// Heuristic: a file that is almost entirely zero bytes is a torn/interrupted write.
pub fn looks_like_null_garbage(data: &[u8]) -> (r: bool)
    ensures
        r == null_garbage(data@),
{
    if data.len() == 0 {
        return true;
    }
    let n = if data.len() < 4096 {
        data.len()
    } else {
        4096
    };
    let mut nulls: usize = 0;
    let mut i: usize = 0;
    assert(data@.take(0) == Seq::<u8>::empty());
    while i < n
        invariant
            n <= data@.len(),
            n <= 4096,
            i <= n,
            nulls <= i,
            nulls == zero_count(data@.take(i as int)),
        decreases n - i,
    {
        assert(data@.take(i + 1).drop_last() == data@.take(i as int));
        if data[i] == 0 {
            nulls += 1;
        }
        i += 1;
    }
    assert(data@.take(n as int) == null_sample(data@));
    nulls * 100 / n > 90
}

} // verus!
