//! What each edit does to a waveform, stated on sequences of amplitudes.
//!
//! A waveform is modelled as a `Seq<int>`: one amplitude, in steps, for each
//! evenly spaced position. The first and the last position are the boundary
//! samples; the ones between them are the interior.

use vstd::prelude::*;
use crate::amplitude::{
    clamped, lemma_quotient_within_unit, magnitude, nearest_index, quotient, UNIT,
};
use crate::decimal::decimal;
use crate::mode::Polarity;

verus! {

/// The shortest waveform the editor keeps.
pub const MIN_SAMPLES: i32 = 10;

/// The length a requested sample count stands for: the request itself, or
/// `MIN_SAMPLES` where the request is smaller.
pub open spec fn effective_len(requested: int) -> int {
    if requested < MIN_SAMPLES as int {
        MIN_SAMPLES as int
    } else {
        requested
    }
}

/// A waveform cut down or padded out to `len` samples, `len` being at least
/// one. Cutting anchors the new last sample at zero; padding appends zeros.
pub open spec fn resized(wave: Seq<int>, len: int) -> Seq<int> {
    if len < wave.len() {
        wave.subrange(0, len).update(len - 1, 0)
    } else {
        wave + Seq::new((len - wave.len()) as nat, |i: int| 0int)
    }
}

/// A waveform with every sample of a forbidden sign set to zero.
pub open spec fn wiped(wave: Seq<int>, polarity: Polarity) -> Seq<int> {
    Seq::new(wave.len(), |i: int| polarity.constrained(wave[i]))
}

/// Whether `i` is an interior position of a waveform of `len` samples.
pub open spec fn is_interior(i: int, len: int) -> bool {
    0 < i < len - 1
}

/// The interior position that a pointer at `x` steps edits, in a waveform of
/// at least three samples: the nearest index, pulled into the interior.
pub open spec fn drag_index(x: int, len: int) -> int {
    let i = nearest_index(x);
    if i < 1 {
        1
    } else if i > len - 2 {
        len - 2
    } else {
        i
    }
}

/// A waveform after one pointer write at position `x`, amplitude `y`. With
/// fewer than three samples there is no interior, and nothing changes.
pub open spec fn dragged(wave: Seq<int>, x: int, y: int) -> Seq<int> {
    if wave.len() < 3 {
        wave
    } else {
        wave.update(drag_index(x, wave.len() as int), clamped(y))
    }
}

/// The largest magnitude among the samples; zero for an empty waveform.
pub open spec fn peak(wave: Seq<int>) -> int
    decreases wave.len(),
{
    if wave.len() == 0 {
        0
    } else {
        let rest = peak(wave.drop_last());
        let m = magnitude(wave.last());
        if m > rest {
            m
        } else {
            rest
        }
    }
}

/// A waveform normalised to its peak: every interior sample divided by the
/// peak, the boundary samples as they were. A waveform whose peak is zero,
/// the empty one included, is left alone.
pub open spec fn scaled(wave: Seq<int>) -> Seq<int> {
    if peak(wave) == 0 {
        wave
    } else {
        Seq::new(
            wave.len(),
            |i: int|
                if is_interior(i, wave.len() as int) {
                    quotient(wave[i], peak(wave))
                } else {
                    wave[i]
                },
        )
    }
}

/// The export text of a waveform: each sample's decimal text followed by a
/// comma, in position order, with nothing before, between or after.
pub open spec fn exported(wave: Seq<int>) -> Seq<char>
    decreases wave.len(),
{
    if wave.len() == 0 {
        Seq::empty()
    } else {
        exported(wave.drop_last()) + decimal(wave.last()) + seq![',']
    }
}

/// Every sample lies between -1.0 and 1.0.
pub open spec fn in_range(wave: Seq<int>) -> bool {
    forall|i: int| 0 <= i < wave.len() ==> magnitude(#[trigger] wave[i]) <= UNIT
}

/// The boundary samples, where there are any, are zero.
pub open spec fn anchored(wave: Seq<int>) -> bool {
    wave.len() > 0 ==> wave[0] == 0 && wave.last() == 0
}

/// Resizing gives exactly the length asked for. Where that cuts the
/// waveform, the new last sample is zero; the samples before it are kept.
/// Where it pads, the old samples are kept and the new ones are zero.
pub proof fn lemma_resized(wave: Seq<int>, len: int)
    requires
        len >= 1,
    ensures
        resized(wave, len).len() == len,
        len < wave.len() ==> resized(wave, len).last() == 0,
        forall|i: int|
            0 <= i < len && i < wave.len() && !(len < wave.len() && i == len - 1) ==> resized(
                wave,
                len,
            )[i] == wave[i],
        forall|i: int| wave.len() <= i < len ==> resized(wave, len)[i] == 0,
{
}

/// A request below the minimum stands for the minimum, whatever it is; any
/// other request stands for itself.
pub proof fn lemma_effective_len(requested: int)
    ensures
        effective_len(requested) >= MIN_SAMPLES,
        requested < MIN_SAMPLES ==> effective_len(requested) == MIN_SAMPLES,
        requested >= MIN_SAMPLES ==> effective_len(requested) == requested,
{
}

/// After a wipe no sample has a forbidden sign, and a polarity that permits
/// both signs wipes nothing.
pub proof fn lemma_wiped_signs(wave: Seq<int>, polarity: Polarity)
    ensures
        wiped(wave, polarity).len() == wave.len(),
        !polarity.positive ==> forall|i: int|
            0 <= i < wave.len() ==> #[trigger] wiped(wave, polarity)[i] <= 0,
        !polarity.negative ==> forall|i: int|
            0 <= i < wave.len() ==> #[trigger] wiped(wave, polarity)[i] >= 0,
        polarity.positive && polarity.negative ==> wiped(wave, polarity) == wave,
{
    if polarity.positive && polarity.negative {
        assert(wiped(wave, polarity) =~= wave);
    }
}

/// Wiping twice is wiping once.
pub proof fn lemma_wipe_idempotent(wave: Seq<int>, polarity: Polarity)
    ensures
        wiped(wiped(wave, polarity), polarity) == wiped(wave, polarity),
{
    assert(wiped(wiped(wave, polarity), polarity) =~= wiped(wave, polarity));
}

/// The peak is no smaller than any sample's magnitude.
pub proof fn lemma_peak_bounds(wave: Seq<int>, i: int)
    requires
        0 <= i < wave.len(),
    ensures
        magnitude(wave[i]) <= peak(wave),
    decreases wave.len(),
{
    if i < wave.len() - 1 {
        lemma_peak_bounds(wave.drop_last(), i);
    }
}

/// The peak is the magnitude of some sample, unless there is none.
pub proof fn lemma_peak_attained(wave: Seq<int>)
    ensures
        peak(wave) >= 0,
        wave.len() > 0 ==> exists|i: int| 0 <= i < wave.len() && magnitude(#[trigger] wave[i]) == peak(wave),
    decreases wave.len(),
{
    if wave.len() > 0 {
        lemma_peak_attained(wave.drop_last());
        if magnitude(wave.last()) > peak(wave.drop_last()) || wave.len() == 1 {
            assert(magnitude(wave[wave.len() - 1]) == peak(wave));
        } else {
            let i = choose|i: int|
                0 <= i < wave.drop_last().len() && magnitude(#[trigger] wave.drop_last()[i]) == peak(
                    wave.drop_last(),
                );
            assert(magnitude(wave[i]) == peak(wave));
        }
    }
}

/// A pointer write changes one sample at most, an interior one, and what
/// it writes is within full scale. The boundary samples are never written.
pub proof fn lemma_dragged(wave: Seq<int>, x: int, y: int)
    ensures
        dragged(wave, x, y).len() == wave.len(),
        wave.len() < 3 ==> dragged(wave, x, y) == wave,
        wave.len() >= 3 ==> is_interior(drag_index(x, wave.len() as int), wave.len() as int),
        wave.len() >= 3 ==> dragged(wave, x, y)[drag_index(x, wave.len() as int)] == clamped(y),
        magnitude(clamped(y)) <= UNIT,
        forall|i: int|
            0 <= i < wave.len() && !(wave.len() >= 3 && i == drag_index(x, wave.len() as int))
                ==> #[trigger] dragged(wave, x, y)[i] == wave[i],
{
}

/// The peak is zero exactly where every sample is zero, and scaling then
/// changes nothing.
pub proof fn lemma_scaled_all_zero(wave: Seq<int>)
    ensures
        peak(wave) == 0 <==> forall|i: int| 0 <= i < wave.len() ==> #[trigger] wave[i] == 0,
        peak(wave) == 0 ==> scaled(wave) == wave,
{
    lemma_peak_attained(wave);
    if peak(wave) == 0 {
        assert forall|i: int| 0 <= i < wave.len() implies #[trigger] wave[i] == 0 by {
            lemma_peak_bounds(wave, i);
        }
    }
}

/// Scaling keeps the length and the boundary samples, and brings every
/// interior sample within full scale; an interior sample that held the peak
/// ends at full scale, with its sign.
pub proof fn lemma_scaled(wave: Seq<int>)
    ensures
        scaled(wave).len() == wave.len(),
        forall|i: int|
            0 <= i < wave.len() && !is_interior(i, wave.len() as int) ==> #[trigger] scaled(wave)[i]
                == wave[i],
        peak(wave) > 0 ==> forall|i: int|
            is_interior(i, wave.len() as int) ==> magnitude(#[trigger] scaled(wave)[i]) <= UNIT,
        peak(wave) > 0 ==> forall|i: int|
            is_interior(i, wave.len() as int) && magnitude(wave[i]) == peak(wave) ==> magnitude(
                #[trigger] scaled(wave)[i],
            ) == UNIT,
{
    if peak(wave) > 0 {
        assert forall|i: int| is_interior(i, wave.len() as int) implies magnitude(
            #[trigger] scaled(wave)[i],
        ) <= UNIT && (magnitude(wave[i]) == peak(wave) ==> magnitude(scaled(wave)[i]) == UNIT) by {
            lemma_peak_bounds(wave, i);
            lemma_quotient_within_unit(wave[i], peak(wave));
        }
    }
}

/// Each edit keeps a waveform within full scale.
pub proof fn lemma_edits_keep_range(wave: Seq<int>, len: int, polarity: Polarity, x: int, y: int)
    requires
        in_range(wave),
        len >= 1,
    ensures
        in_range(resized(wave, len)),
        in_range(wiped(wave, polarity)),
        in_range(dragged(wave, x, y)),
        in_range(scaled(wave)),
{
    lemma_scaled(wave);
    assert forall|i: int| 0 <= i < scaled(wave).len() implies magnitude(
        #[trigger] scaled(wave)[i],
    ) <= UNIT by {
        if !is_interior(i, wave.len() as int) {
            assert(scaled(wave)[i] == wave[i]);
        }
    }
}

/// Each edit keeps the boundary samples at zero. Resizing does so for any
/// length of at least two.
pub proof fn lemma_edits_keep_anchors(wave: Seq<int>, len: int, polarity: Polarity, x: int, y: int)
    requires
        anchored(wave),
        len >= 2,
    ensures
        anchored(resized(wave, len)),
        anchored(wiped(wave, polarity)),
        anchored(dragged(wave, x, y)),
        anchored(scaled(wave)),
{
    lemma_scaled(wave);
    if wave.len() > 0 {
        assert(scaled(wave)[0] == wave[0]);
        assert(scaled(wave)[wave.len() - 1] == wave[wave.len() - 1]);
    }
}

} // verus!
