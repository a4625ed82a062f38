//! Cache-key derivation.
//!
//! A cache key is a fixed-width identifier derived deterministically from the
//! input file's identity (path, size, last-modified timestamp) and the
//! request parameters (segment duration, observation window, start offset).
//! The start offset is quantized to the nearest lower multiple of the segment
//! duration before it enters the key, so that nearby seeks collide onto the
//! same cache entry. The modification time is folded in as the final step by
//! exclusive-or, so a change of modification time always changes the key and
//! stale entries are invalidated without explicit invalidation logic.

use vstd::prelude::*;

use crate::text::spec_hex32;
use crate::text::hex32_string;
use vstd::string::StringSliceAdditionalSpecFns;

verus! {

/// Segment durations below this are clamped up to it (seconds).
pub const MIN_SEGMENT_SECONDS: u32 = 2;

/// The observation window used when the caller gives none (seconds).
pub const DEFAULT_WINDOW_SECONDS: u64 = 600;

/// Offset basis of the 128-bit FNV-1a fold.
pub const FOLD_OFFSET: u128 = 0x6c62272e07bb014262b821756295c58d;

/// Multiplier of the 128-bit FNV-1a fold.
pub const FOLD_PRIME: u128 = 0x0000000001000000000000000000013b;

/// The requested segment duration, clamped to the minimum.
pub open spec fn spec_clamped_segment(segment_seconds: u32) -> u32 {
    if segment_seconds < MIN_SEGMENT_SECONDS {
        MIN_SEGMENT_SECONDS
    } else {
        segment_seconds
    }
}

/// The requested window, defaulted when absent and clamped to at least three
/// times the clamped segment duration.
pub open spec fn spec_clamped_window(window_seconds: Option<u64>, segment_seconds: u32) -> u64 {
    let w = match window_seconds {
        Some(w) => w,
        None => DEFAULT_WINDOW_SECONDS,
    };
    let floor = (3 * spec_clamped_segment(segment_seconds)) as u64;
    if w < floor {
        floor
    } else {
        w
    }
}

/// The requested start offset in milliseconds, clamped to zero when negative
/// or absent.
pub open spec fn spec_clamped_start_ms(start_ms: Option<i64>) -> u64 {
    match start_ms {
        Some(s) => if s < 0 {
            0
        } else {
            s as u64
        },
        None => 0,
    }
}

/// The start offset floored to the nearest multiple of the clamped segment
/// duration, in milliseconds.
pub open spec fn spec_aligned_start_ms(start_ms: u64, segment_seconds: u32) -> u64 {
    let m = spec_clamped_segment(segment_seconds) as int * 1000;
    ((start_ms as int / m) * m) as u64
}

/// One step of the key fold: exclusive-or, then a wrapping multiply by the
/// fold prime.
pub open spec fn spec_mix(h: u128, w: u128) -> u128 {
    (((h ^ w) * FOLD_PRIME) % (u128::MAX as int + 1)) as u128
}

/// The key fold over a byte sequence, front to back.
pub open spec fn spec_fold_bytes(h: u128, s: Seq<u8>) -> u128
    decreases s.len(),
{
    if s.len() == 0 {
        h
    } else {
        spec_fold_bytes(spec_mix(h, s[0] as u128), s.drop_first())
    }
}

/// The modification timestamp packed into a single word, injectively:
/// seconds (offset into the non-negative range) in the high bits, the
/// sub-second nanoseconds in the low 32 bits.
pub open spec fn spec_mtime_word(mtime_secs: i64, mtime_nanos: u32) -> u128 {
    ((mtime_secs - i64::MIN) * 0x100000000 + mtime_nanos) as u128
}

/// The cache key value: an order-sensitive fold over the path bytes, file
/// size, clamped segment duration, clamped window, and quantized start
/// offset, with the modification-time word folded in last by exclusive-or.
pub open spec fn spec_key_value(
    path: Seq<u8>,
    file_size: u64,
    mtime_secs: i64,
    mtime_nanos: u32,
    segment_seconds: u32,
    window_seconds: Option<u64>,
    start_ms: Option<i64>,
) -> u128 {
    let h0 = spec_fold_bytes(FOLD_OFFSET, path);
    let h1 = spec_mix(h0, file_size as u128);
    let h2 = spec_mix(h1, spec_clamped_segment(segment_seconds) as u128);
    let h3 = spec_mix(h2, spec_clamped_window(window_seconds, segment_seconds) as u128);
    let h4 = spec_mix(
        h3,
        spec_aligned_start_ms(spec_clamped_start_ms(start_ms), segment_seconds) as u128,
    );
    h4 ^ spec_mtime_word(mtime_secs, mtime_nanos)
}

/// A derived cache key. Equal keys identify the same cache entry.
#[derive(PartialEq, Eq, Structural, Clone, Copy, Debug, Hash)]
pub struct CacheKey {
    pub value: u128,
}

impl CacheKey {
    /// The opaque id under which this key's entry is registered and served:
    /// the fixed-width hexadecimal form of the key value.
    pub fn id_string(&self) -> (r: String)
        ensures
            r@ == spec_hex32(self.value),
    {
        hex32_string(self.value)
    }
}

/// The requested segment duration, clamped to the minimum.
pub fn clamped_segment(segment_seconds: u32) -> (r: u32)
    ensures
        r == spec_clamped_segment(segment_seconds),
{
    if segment_seconds < MIN_SEGMENT_SECONDS {
        MIN_SEGMENT_SECONDS
    } else {
        segment_seconds
    }
}

/// The requested window, defaulted when absent and clamped to at least three
/// times the clamped segment duration.
pub fn clamped_window(window_seconds: Option<u64>, segment_seconds: u32) -> (r: u64)
    ensures
        r == spec_clamped_window(window_seconds, segment_seconds),
{
    let w = match window_seconds {
        Some(w) => w,
        None => DEFAULT_WINDOW_SECONDS,
    };
    let floor = 3 * clamped_segment(segment_seconds) as u64;
    if w < floor {
        floor
    } else {
        w
    }
}

/// The requested start offset in milliseconds, clamped to zero when negative
/// or absent.
pub fn clamped_start_ms(start_ms: Option<i64>) -> (r: u64)
    ensures
        r == spec_clamped_start_ms(start_ms),
{
    match start_ms {
        Some(s) => if s < 0 {
            0
        } else {
            s as u64
        },
        None => 0,
    }
}

/// The start offset floored to the nearest multiple of the clamped segment
/// duration, in milliseconds.
pub fn aligned_start_ms(start_ms: u64, segment_seconds: u32) -> (r: u64)
    ensures
        r == spec_aligned_start_ms(start_ms, segment_seconds),
{
    let m: u64 = clamped_segment(segment_seconds) as u64 * 1000;
    let q: u64 = start_ms / m;
    proof {
        vstd::arithmetic::div_mod::lemma_fundamental_div_mod(start_ms as int, m as int);
    }
    q * m
}

/// One step of the key fold.
fn mix(h: u128, w: u128) -> (r: u128)
    ensures
        r == spec_mix(h, w),
{
    (h ^ w).wrapping_mul(FOLD_PRIME)
}

/// Derives the cache key for one input file and one parameter set.
///
/// `path`, `file_size`, `mtime_secs` and `mtime_nanos` are the input file's
/// identity as a prior filesystem-metadata read reported it; giving accurate
/// metadata is the caller's charge. The key is a pure function of its
/// arguments: no counter, time or randomness participates.
pub fn derive_key(
    path: &str,
    file_size: u64,
    mtime_secs: i64,
    mtime_nanos: u32,
    segment_seconds: u32,
    window_seconds: Option<u64>,
    start_ms: Option<i64>,
) -> (k: CacheKey)
    ensures
        k.value == spec_key_value(
            path.spec_bytes(),
            file_size,
            mtime_secs,
            mtime_nanos,
            segment_seconds,
            window_seconds,
            start_ms,
        ),
{
    let bytes = path.as_bytes();
    let mut h: u128 = FOLD_OFFSET;
    let n = bytes.len();
    let mut i: usize = 0;
    assert(path.spec_bytes().skip(0) =~= path.spec_bytes());
    while i < n
        invariant
            i <= n,
            n == path.spec_bytes().len(),
            bytes@ == path.spec_bytes(),
            spec_fold_bytes(FOLD_OFFSET, path.spec_bytes()) == spec_fold_bytes(
                h,
                path.spec_bytes().skip(i as int),
            ),
        decreases n - i,
    {
        assert(path.spec_bytes().skip(i as int).drop_first() =~= path.spec_bytes().skip(
            i as int + 1,
        ));
        h = mix(h, bytes[i] as u128);
        i = i + 1;
    }
    assert(path.spec_bytes().skip(n as int) =~= Seq::<u8>::empty());
    h = mix(h, file_size as u128);
    h = mix(h, clamped_segment(segment_seconds) as u128);
    h = mix(h, clamped_window(window_seconds, segment_seconds) as u128);
    let start = clamped_start_ms(start_ms);
    h = mix(h, aligned_start_ms(start, segment_seconds) as u128);
    let secs_offset: u128 = (mtime_secs as i128 - i64::MIN as i128) as u128;
    let word: u128 = secs_offset * 0x100000000 + mtime_nanos as u128;
    assert(word == spec_mtime_word(mtime_secs, mtime_nanos));
    CacheKey { value: h ^ word }
}

/// Law: for every start offset and segment duration, the quantized start is
/// a multiple of the clamped segment duration (in milliseconds) and never
/// exceeds the start offset it was derived from.
pub proof fn lemma_aligned_start_bounds(start_ms: u64, segment_seconds: u32)
    ensures
        spec_aligned_start_ms(start_ms, segment_seconds) as int % (spec_clamped_segment(
            segment_seconds,
        ) as int * 1000) == 0,
        spec_aligned_start_ms(start_ms, segment_seconds) <= start_ms,
{
    let m = spec_clamped_segment(segment_seconds) as int * 1000;
    let q = start_ms as int / m;
    vstd::arithmetic::div_mod::lemma_fundamental_div_mod(start_ms as int, m);
    vstd::arithmetic::div_mod::lemma_mod_multiples_basic(q, m);
}

/// Law: key derivation is idempotent across start-offset jitter. Two
/// parameter sets that agree on the file identity, segment duration and
/// window, and whose start offsets quantize to the same aligned start,
/// derive the same key.
pub proof fn lemma_key_ignores_jitter_within_segment(
    path: Seq<u8>,
    file_size: u64,
    mtime_secs: i64,
    mtime_nanos: u32,
    segment_seconds: u32,
    window_seconds: Option<u64>,
    start_ms_a: Option<i64>,
    start_ms_b: Option<i64>,
)
    requires
        spec_aligned_start_ms(spec_clamped_start_ms(start_ms_a), segment_seconds)
            == spec_aligned_start_ms(spec_clamped_start_ms(start_ms_b), segment_seconds),
    ensures
        spec_key_value(
            path,
            file_size,
            mtime_secs,
            mtime_nanos,
            segment_seconds,
            window_seconds,
            start_ms_a,
        ) == spec_key_value(
            path,
            file_size,
            mtime_secs,
            mtime_nanos,
            segment_seconds,
            window_seconds,
            start_ms_b,
        ),
{
}

/// Law: the key depends on the modification time. Two derivations that agree
/// on everything but the modification timestamp derive different keys, so
/// editing the source file invalidates the cache entry.
pub proof fn lemma_key_depends_on_mtime(
    path: Seq<u8>,
    file_size: u64,
    mtime_secs_a: i64,
    mtime_nanos_a: u32,
    mtime_secs_b: i64,
    mtime_nanos_b: u32,
    segment_seconds: u32,
    window_seconds: Option<u64>,
    start_ms: Option<i64>,
)
    requires
        mtime_secs_a != mtime_secs_b || mtime_nanos_a != mtime_nanos_b,
    ensures
        spec_key_value(
            path,
            file_size,
            mtime_secs_a,
            mtime_nanos_a,
            segment_seconds,
            window_seconds,
            start_ms,
        ) != spec_key_value(
            path,
            file_size,
            mtime_secs_b,
            mtime_nanos_b,
            segment_seconds,
            window_seconds,
            start_ms,
        ),
{
    let wa = spec_mtime_word(mtime_secs_a, mtime_nanos_a);
    let wb = spec_mtime_word(mtime_secs_b, mtime_nanos_b);
    let base = 0x100000000int;
    let xa = (mtime_secs_a - i64::MIN) * base + mtime_nanos_a;
    let xb = (mtime_secs_b - i64::MIN) * base + mtime_nanos_b;
    vstd::arithmetic::div_mod::lemma_fundamental_div_mod_converse(
        xa,
        base,
        mtime_secs_a - i64::MIN,
        mtime_nanos_a as int,
    );
    vstd::arithmetic::div_mod::lemma_fundamental_div_mod_converse(
        xb,
        base,
        mtime_secs_b - i64::MIN,
        mtime_nanos_b as int,
    );
    assert(xa != xb);
    assert(wa != wb);
    let h = spec_mix(
        spec_mix(
            spec_mix(
                spec_mix(spec_fold_bytes(FOLD_OFFSET, path), file_size as u128),
                spec_clamped_segment(segment_seconds) as u128,
            ),
            spec_clamped_window(window_seconds, segment_seconds) as u128,
        ),
        spec_aligned_start_ms(spec_clamped_start_ms(start_ms), segment_seconds) as u128,
    );
    lemma_xor_injective(h, wa, wb);
}

/// Law: distinct keys have distinct serving ids, so two cache entries can
/// never collide in the serving scope.
pub proof fn lemma_distinct_keys_distinct_ids(k1: CacheKey, k2: CacheKey)
    requires
        k1.value != k2.value,
    ensures
        spec_hex32(k1.value) != spec_hex32(k2.value),
{
    if spec_hex32(k1.value) == spec_hex32(k2.value) {
        crate::text::lemma_hex32_injective(k1.value, k2.value);
    }
}

/// Exclusive-or with a common word is injective.
pub proof fn lemma_xor_injective(h: u128, a: u128, b: u128)
    requires
        a != b,
    ensures
        (h ^ a) != (h ^ b),
{
    assert((h ^ a) != (h ^ b)) by (bit_vector)
        requires
            a != b,
    ;
}

} // verus!
