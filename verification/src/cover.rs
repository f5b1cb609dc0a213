//! Whole-number parts of cover-art handling: the colour histogram's winning
//! bucket, the averages drawn from it, the sampling grid, and the text hash
//! that tells songs and lyric lines apart.

use vstd::prelude::*;

verus! {

/// One histogram bucket: summed red, green and blue, and the pixel count.
pub type HsvBucket = (u64, u64, u64, u32);

/// The colour histogram: 12 hue by 4 saturation by 4 value buckets.
pub type HsvHistogram = [[[HsvBucket; 4]; 4]; 12];

/// Number of buckets in a histogram.
pub const BUCKETS: usize = 192;

/// The bucket at position `k` of the scan order: hue major, then saturation,
/// then value.
pub open spec fn bucket(b: HsvHistogram, k: int) -> HsvBucket {
    b@[k / 16]@[(k % 16) / 4]@[k % 4]
}

/// A bucket's weight: its pixel count times one more than its saturation tier.
pub open spec fn score(b: HsvHistogram, k: int) -> int {
    bucket(b, k).3 * ((k % 16) / 4 + 1)
}

/// `j` is the winning bucket: non-empty, of the greatest weight, with the
/// greatest pixel count among the buckets of that weight, and the first in
/// scan order among those.
pub open spec fn is_best_bucket(b: HsvHistogram, j: int) -> bool {
    &&& 0 <= j < 192
    &&& bucket(b, j).3 > 0
    &&& forall|k: int| 0 <= k < 192 && #[trigger] bucket(b, k).3 > 0 ==> score(b, k) <= score(b, j)
    &&& forall|k: int| 0 <= k < 192 && #[trigger] bucket(b, k).3 > 0 && score(b, k) == score(b, j) ==> bucket(b,
        k).3 <= bucket(b, j).3
    &&& forall|k: int| 0 <= k < j && #[trigger] bucket(b, k).3 > 0 && score(b, k) == score(b, j) ==> bucket(b,
        k).3 < bucket(b, j).3
}

fn bucket_score(count: u32, k: usize) -> (r: u64)
    requires
        k < 192,
    ensures
        r == count * ((k % 16) / 4 + 1),
{
    let tier: u64 = ((k % 16) / 4) as u64 + 1;
    assert(count * tier <= u32::MAX * 4) by (nonlinear_arith)
        requires tier <= 4;
    count as u64 * tier
}

/// The bucket whose colour becomes the background: the most heavily
/// weighted non-empty one, the one with more pixels on a tie in weight (the
/// earliest when that ties too); `None` when all are empty.
pub fn find_best_bucket(buckets: &HsvHistogram) -> (r: Option<HsvBucket>)
    ensures
        r is None <==> forall|k: int| 0 <= k < 192 ==> #[trigger] bucket(*buckets, k).3 == 0,
        r matches Some(x) ==> exists|j: int| is_best_bucket(*buckets, j) && x == bucket(*buckets, j),
{
    let mut best: Option<(usize, u64)> = None;
    let mut k: usize = 0;
    while k < BUCKETS
        invariant
            k <= 192,
            best is None <==> forall|m: int| 0 <= m < k ==> #[trigger] bucket(*buckets, m).3 == 0,
            best matches Some((j, s)) ==> {
                &&& j < k
                &&& bucket(*buckets, j as int).3 > 0
                &&& s == score(*buckets, j as int)
                &&& forall|m: int| 0 <= m < k && #[trigger] bucket(*buckets, m).3 > 0 ==> score(*buckets, m) <= s
                &&& forall|m: int| 0 <= m < k && #[trigger] bucket(*buckets, m).3 > 0 && score(*buckets, m) == s
                    ==> bucket(*buckets, m).3 <= bucket(*buckets, j as int).3
                &&& forall|m: int| 0 <= m < j && #[trigger] bucket(*buckets, m).3 > 0 && score(*buckets, m) == s
                    ==> bucket(*buckets, m).3 < bucket(*buckets, j as int).3
            },
        decreases 192 - k,
    {
        let x = buckets[k / 16][(k % 16) / 4][k % 4];
        assert(x == bucket(*buckets, k as int));
        if x.3 > 0 {
            let s = bucket_score(x.3, k);
            match best {
                None => {
                    best = Some((k, s));
                },
                Some((j, t)) => {
                    let c = buckets[j / 16][(j % 16) / 4][j % 4].3;
                    assert(c == bucket(*buckets, j as int).3);
                    if s > t || (s == t && x.3 > c) {
                        best = Some((k, s));
                    }
                },
            }
        }
        k = k + 1;
    }
    match best {
        None => None,
        Some((j, _)) => {
            let x = buckets[j / 16][(j % 16) / 4][j % 4];
            assert(is_best_bucket(*buckets, j as int));
            Some(x)
        },
    }
}

/// One channel of a bucket's average colour, capped at 255.
pub fn channel_average(sum: u64, count: u64) -> (r: u8)
    requires
        count > 0,
    ensures
        r == (if sum / count > 255 { 255 } else { sum / count }),
{
    let avg = sum / count;
    if avg > 255 {
        255
    } else {
        avg as u8
    }
}

/// The distance between sampled pixels along a side of `size` pixels, so
/// that at most about 16 samples are taken along it.
pub fn sample_step(size: usize) -> (r: usize)
    ensures
        r == (if size / 16 > 1 { size / 16 } else { 1 }),
{
    let s = size / 16;
    if s > 1 {
        s
    } else {
        1
    }
}

/// The djb2 hash of a byte string, in 64-bit wrapping arithmetic.
pub open spec fn djb2(bytes: Seq<u8>) -> u64
    decreases bytes.len(),
{
    if bytes.len() == 0 {
        5381
    } else {
        ((djb2(bytes.drop_last()) * 33 + bytes.last()) % 0x1_0000_0000_0000_0000) as u64
    }
}

/// The hash by which the lyric views notice a new song or a new line: djb2
/// over the text's UTF-8 bytes.
pub fn hash_text(text: &str) -> (r: u64)
    ensures
        r == djb2(vstd::utf8::encode_utf8(text@)),
{
    let bytes = text.as_bytes();
    let mut hash: u64 = 5381;
    let mut i: usize = 0;
    assert(bytes@.take(0) =~= Seq::<u8>::empty());
    while i < bytes.len()
        invariant
            i <= bytes@.len(),
            hash == djb2(bytes@.take(i as int)),
        decreases bytes.len() - i,
    {
        let b = bytes[i];
        assert(bytes@.take(i + 1).drop_last() =~= bytes@.take(i as int));
        let m = hash.wrapping_mul(33);
        hash = m.wrapping_add(b as u64);
        assert(hash == ((djb2(bytes@.take(i as int)) * 33 + b) % 0x1_0000_0000_0000_0000) as u64) by {
            assert(m == (djb2(bytes@.take(i as int)) * 33) % 0x1_0000_0000_0000_0000);
            assert(hash == (m + b) % 0x1_0000_0000_0000_0000);
            vstd::arithmetic::div_mod::lemma_add_mod_noop(
                djb2(bytes@.take(i as int)) * 33, b as int, 0x1_0000_0000_0000_0000);
            vstd::arithmetic::div_mod::lemma_mod_twice(b as int, 0x1_0000_0000_0000_0000);
        }
        i = i + 1;
    }
    assert(bytes@.take(bytes@.len() as int) =~= bytes@);
    hash
}

/// Whether every byte of a text is ASCII.
pub fn is_ascii_text(text: &str) -> (r: bool)
    ensures
        r == (forall|k: int| 0 <= k < vstd::utf8::encode_utf8(text@).len() ==> #[trigger] vstd::utf8::encode_utf8(text@)[k] < 128),
{
    let bytes = text.as_bytes();
    let mut i: usize = 0;
    while i < bytes.len()
        invariant
            i <= bytes@.len(),
            bytes@ == vstd::utf8::encode_utf8(text@),
            forall|k: int| 0 <= k < i ==> #[trigger] bytes@[k] < 128,
        decreases bytes.len() - i,
    {
        if bytes[i] >= 128 {
            return false;
        }
        i = i + 1;
    }
    true
}

} // verus!
