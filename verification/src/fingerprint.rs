//! A fixed-seed 64-bit mixing hash (FNV-1a) over characters and words.  Cache
//! fingerprints must be stable within a policy revision, so the hash is a pure
//! function of its inputs, specified exactly.

use vstd::prelude::*;

verus! {

use vstd::string::StrSliceExecFns;

pub const FNV_OFFSET: u64 = 0xcbf29ce484222325;

pub const FNV_PRIME: u64 = 0x100000001b3;

pub const U64_MOD: u128 = 0x10000000000000000;

/// One FNV-1a step: xor the byte in, multiply by the prime modulo 2^64.
pub open spec fn fnv_mix(h: u64, b: u8) -> u64 {
    ((((h ^ (b as u64)) as int) * (FNV_PRIME as int)) % (U64_MOD as int)) as u64
}

fn mix_byte(h: u64, b: u8) -> (r: u64)
    ensures
        r == fnv_mix(h, b),
{
    let wide: u128 = ((h ^ (b as u64)) as u128) * (FNV_PRIME as u128);
    (wide % U64_MOD) as u64
}

/// Mix a 64-bit word in, least significant byte first.
pub open spec fn fnv_mix_u64(h: u64, w: u64) -> u64 {
    let b0 = (w % 256) as u8;
    let b1 = ((w / 256) % 256) as u8;
    let b2 = ((w / 0x10000) % 256) as u8;
    let b3 = ((w / 0x1000000) % 256) as u8;
    let b4 = ((w / 0x100000000) % 256) as u8;
    let b5 = ((w / 0x10000000000) % 256) as u8;
    let b6 = ((w / 0x1000000000000) % 256) as u8;
    let b7 = ((w / 0x100000000000000) % 256) as u8;
    fnv_mix(
        fnv_mix(
            fnv_mix(fnv_mix(fnv_mix(fnv_mix(fnv_mix(fnv_mix(h, b0), b1), b2), b3), b4), b5),
            b6,
        ),
        b7,
    )
}

pub fn mix_u64(h: u64, w: u64) -> (r: u64)
    ensures
        r == fnv_mix_u64(h, w),
{
    let b0 = (w % 256) as u8;
    let b1 = ((w / 256) % 256) as u8;
    let b2 = ((w / 0x10000) % 256) as u8;
    let b3 = ((w / 0x1000000) % 256) as u8;
    let b4 = ((w / 0x100000000) % 256) as u8;
    let b5 = ((w / 0x10000000000) % 256) as u8;
    let b6 = ((w / 0x1000000000000) % 256) as u8;
    let b7 = ((w / 0x100000000000000) % 256) as u8;
    let mut r = mix_byte(h, b0);
    r = mix_byte(r, b1);
    r = mix_byte(r, b2);
    r = mix_byte(r, b3);
    r = mix_byte(r, b4);
    r = mix_byte(r, b5);
    r = mix_byte(r, b6);
    mix_byte(r, b7)
}

/// Mix the characters of a string in, as 32-bit codes, least significant byte
/// first; a function of the character sequence alone.
pub open spec fn fnv_mix_chars(h: u64, s: Seq<char>) -> u64
    decreases s.len(),
{
    if s.len() == 0 {
        h
    } else {
        fnv_mix_chars(fnv_mix_char(h, s.first()), s.drop_first())
    }
}

pub open spec fn fnv_mix_char(h: u64, c: char) -> u64 {
    let w = c as u32;
    let b0 = (w % 256) as u8;
    let b1 = ((w / 256) % 256) as u8;
    let b2 = ((w / 0x10000) % 256) as u8;
    let b3 = ((w / 0x1000000) % 256) as u8;
    fnv_mix(fnv_mix(fnv_mix(fnv_mix(h, b0), b1), b2), b3)
}

fn mix_char(h: u64, c: char) -> (r: u64)
    ensures
        r == fnv_mix_char(h, c),
{
    let w = c as u32;
    let b0 = (w % 256) as u8;
    let b1 = ((w / 256) % 256) as u8;
    let b2 = ((w / 0x10000) % 256) as u8;
    let b3 = ((w / 0x1000000) % 256) as u8;
    let mut r = mix_byte(h, b0);
    r = mix_byte(r, b1);
    r = mix_byte(r, b2);
    mix_byte(r, b3)
}

pub fn mix_chars(h: u64, s: &str) -> (r: u64)
    ensures
        r == fnv_mix_chars(h, s@),
{
    let len = s.unicode_len();
    let mut i: usize = 0;
    let mut acc = h;
    proof {
        assert(s@.subrange(0, len as int) =~= s@);
    }
    while i < len
        invariant
            len == s@.len(),
            i <= len,
            fnv_mix_chars(acc, s@.subrange(i as int, len as int)) == fnv_mix_chars(h, s@),
        decreases len - i,
    {
        proof {
            let rest = s@.subrange(i as int, len as int);
            assert(rest.len() > 0);
            assert(rest.first() == s@[i as int]);
            assert(rest.drop_first() =~= s@.subrange(i + 1, len as int));
        }
        acc = mix_char(acc, s.get_char(i));
        i = i + 1;
    }
    proof {
        assert(s@.subrange(len as int, len as int) =~= Seq::<char>::empty());
    }
    acc
}

/// Hash of a string from the fixed FNV offset.
pub open spec fn hash_chars_spec(s: Seq<char>) -> u64 {
    fnv_mix_chars(FNV_OFFSET, s)
}

/// Hash a string; stable across processes and machines.
pub fn hash_string(s: &str) -> (r: u64)
    ensures
        r == hash_chars_spec(s@),
{
    mix_chars(FNV_OFFSET, s)
}

} // verus!
