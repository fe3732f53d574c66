//! Audio: capture configuration, the capture source choice, the rolling window
//! of recent samples, the analysis window framing and band bin ranges, and the
//! synthetic signal's noise generator.
//!
//! The functions over samples are generic in the sample type: they move
//! samples around and never compute with them.

use crate::config::text_of;
use crate::text::{trim, trimmed};
use vstd::math::{max, min};
use vstd::prelude::*;

verus! {

/// Sample rate requested from the audio server.
pub const SAMPLE_RATE: u32 = 44_100;

/// Number of spectrum bins exposed to shaders; a multiple of 4, since the
/// shaders receive them packed four to a `vec4`.
pub const NUM_BINS: usize = 64;

/// FFT window size, and the number of samples analysed per frame.
pub const FFT_SIZE: usize = 2048;

/// The state the synthetic signal's noise generator starts from.
pub const NOISE_SEED: u32 = 0x1234_5678;

/// Capture configuration.
#[derive(Clone, Debug)]
pub struct AudioConfig {
    pub synthetic: bool,
    /// Only consulted by the PipeWire/PulseAudio capture backend.
    pub device: Option<String>,
    pub sample_rate: u32,
}

impl Default for AudioConfig {
    fn default() -> (cfg: AudioConfig)
        ensures
            !cfg.synthetic,
            cfg.device is None,
            cfg.sample_rate == SAMPLE_RATE,
    {
        AudioConfig { synthetic: false, device: None, sample_rate: SAMPLE_RATE }
    }
}

/// The capture source named without asking the sound server: the configured
/// device, else the environment override when it holds more than whitespace
/// (trimmed), else none.
pub open spec fn explicit_source(device: Option<Seq<char>>, env_value: Option<Seq<char>>) -> Option<
    Seq<char>,
> {
    match device {
        Some(d) => Some(d),
        None => match env_value {
            Some(e) => if trimmed(e).len() > 0 {
                Some(trimmed(e))
            } else {
                None
            },
            None => None,
        },
    }
}

/// The capture source named by the configuration or the environment
/// variable's value `env_value`; `None` means the default sink's monitor
/// should be asked for.
pub fn explicit_device(device: &Option<String>, env_value: &Option<String>) -> (source: Option<
    String,
>)
    ensures
        text_of(source) == explicit_source(text_of(*device), text_of(*env_value)),
{
    match device {
        Some(d) => Some(d.clone()),
        None => match env_value {
            Some(e) => {
                let t = trim(e.as_str());
                if t.as_str().unicode_len() > 0 {
                    Some(t)
                } else {
                    None
                }
            },
            None => None,
        },
    }
}

/// The monitor source of a sink: the name's characters followed by
/// `.monitor`, or none for a blank name.
pub open spec fn monitor_of(sink_name: Seq<char>) -> Option<Seq<char>> {
    if trimmed(sink_name).len() > 0 {
        Some(trimmed(sink_name) + ".monitor"@)
    } else {
        None
    }
}

/// The monitor source of the default sink, given the default sink's name as
/// the sound server printed it (surrounding whitespace is ignored).
pub fn default_sink_monitor(sink_name: &str) -> (source: Option<String>)
    ensures
        text_of(source) == monitor_of(sink_name@),
{
    let mut name = trim(sink_name);
    if name.as_str().unicode_len() == 0 {
        None
    } else {
        name.append(".monitor");
        Some(name)
    }
}

/// A configured device always wins over the environment; without one, a
/// blank or missing environment value names no source, and a named source is
/// never blank.
pub proof fn lemma_source_priority(device: Option<Seq<char>>, env_value: Option<Seq<char>>)
    ensures
        device is Some ==> explicit_source(device, env_value) == device,
        device is None && env_value is None ==> explicit_source(device, env_value) is None,
        device is None && explicit_source(device, env_value) is Some ==> env_value is Some
            && explicit_source(device, env_value)->0 == trimmed(env_value->0)
            && explicit_source(device, env_value)->0.len() > 0,
{
}

/// A monitor source is the sink's trimmed, non-blank name followed by
/// `.monitor`.
pub proof fn lemma_monitor_suffix(sink_name: Seq<char>)
    ensures
        monitor_of(sink_name) is Some <==> trimmed(sink_name).len() > 0,
        monitor_of(sink_name) is Some ==> ({
            let m = monitor_of(sink_name)->0;
            &&& m.len() == trimmed(sink_name).len() + ".monitor"@.len()
            &&& m.subrange(0, trimmed(sink_name).len() as int) == trimmed(sink_name)
            &&& m.subrange(trimmed(sink_name).len() as int, m.len() as int) == ".monitor"@
        }),
{
    if trimmed(sink_name).len() > 0 {
        let m = monitor_of(sink_name)->0;
        assert(m.subrange(0, trimmed(sink_name).len() as int) =~= trimmed(sink_name));
        assert(m.subrange(trimmed(sink_name).len() as int, m.len() as int) =~= ".monitor"@);
    }
}

/// The last `window.len()` samples of `window` followed by `new`.
pub open spec fn rolled<T>(window: Seq<T>, new: Seq<T>) -> Seq<T> {
    let all = window + new;
    all.subrange(all.len() - window.len(), all.len() as int)
}

/// Append `new` to the rolling window, discarding the oldest samples so that
/// the window keeps its length.
pub fn push_window<T: Copy>(window: &mut Vec<T>, new: &[T])
    ensures
        final(window)@ == rolled(old(window)@, new@),
{
    let w = window.len();
    let n = new.len();
    let ghost target = rolled(old(window)@, new@);
    assert(target.len() == w);
    assert(forall|i: int| 0 <= i < w ==> #[trigger] target[i] == (old(window)@ + new@)[i + n]);
    if n >= w {
        let mut k: usize = 0;
        while k < w
            invariant
                w == window@.len(),
                n == new@.len(),
                n >= w,
                k <= w,
                target == rolled(old(window)@, new@),
                target.len() == w,
                old(window)@.len() == w,
                forall|i: int| 0 <= i < w ==> #[trigger] target[i] == (old(window)@ + new@)[i + n],
                forall|i: int| 0 <= i < k ==> window@[i] == target[i],
            decreases w - k,
        {
            assert(target[k as int] == new@[n - w + k]);
            window.set(k, new[n - w + k]);
            k = k + 1;
        }
    } else {
        let keep = w - n;
        let mut k: usize = 0;
        while k < keep
            invariant
                w == window@.len(),
                n == new@.len(),
                keep == w - n,
                k <= keep,
                target == rolled(old(window)@, new@),
                target.len() == w,
                old(window)@.len() == w,
                forall|i: int| 0 <= i < w ==> #[trigger] target[i] == (old(window)@ + new@)[i + n],
                forall|i: int| 0 <= i < k ==> window@[i] == target[i],
                forall|i: int| k <= i < w ==> window@[i] == old(window)@[i],
            decreases keep - k,
        {
            assert(target[k as int] == old(window)@[k + n]);
            window.set(k, window[k + n]);
            k = k + 1;
        }
        let mut j: usize = 0;
        while j < n
            invariant
                w == window@.len(),
                n == new@.len(),
                keep == w - n,
                j <= n,
                target == rolled(old(window)@, new@),
                target.len() == w,
                old(window)@.len() == w,
                forall|i: int| 0 <= i < w ==> #[trigger] target[i] == (old(window)@ + new@)[i + n],
                forall|i: int| 0 <= i < keep + j ==> window@[i] == target[i],
            decreases n - j,
        {
            assert(target[keep + j] == new@[j as int]);
            window.set(keep + j, new[j]);
            j = j + 1;
        }
    }
    assert(window@ =~= target);
}

/// The window keeps its length and ends with the newest samples: when fewer
/// samples arrive than the window holds, the old samples move to the front
/// (the oldest ones dropped) and the new ones fill the end; otherwise the
/// window holds the last of the new samples.
pub proof fn lemma_window_keeps_newest<T>(window: Seq<T>, new: Seq<T>)
    ensures
        rolled(window, new).len() == window.len(),
        new.len() <= window.len() ==> rolled(window, new).subrange(
            window.len() - new.len(),
            window.len() as int,
        ) == new && rolled(window, new).subrange(0, window.len() - new.len()) == window.subrange(
            new.len() as int,
            window.len() as int,
        ),
        new.len() >= window.len() ==> rolled(window, new) == new.subrange(
            new.len() - window.len(),
            new.len() as int,
        ),
{
    let r = rolled(window, new);
    if new.len() <= window.len() {
        assert(r.subrange(window.len() - new.len(), window.len() as int) =~= new);
        assert(r.subrange(0, window.len() - new.len()) =~= window.subrange(
            new.len() as int,
            window.len() as int,
        ));
    }
    if new.len() >= window.len() {
        assert(r =~= new.subrange(new.len() - window.len(), new.len() as int));
    }
}

/// Pushing `a` and then `b` leaves the window that pushing `a` followed by `b`
/// in one go leaves.
pub proof fn lemma_push_window_compose<T>(window: Seq<T>, a: Seq<T>, b: Seq<T>)
    ensures
        rolled(rolled(window, a), b) == rolled(window, a + b),
        rolled(window, a).len() == window.len(),
{
    let lhs = rolled(rolled(window, a), b);
    let rhs = rolled(window, a + b);
    assert(lhs.len() == rhs.len());
    assert forall|i: int| 0 <= i < lhs.len() implies lhs[i] == rhs[i] by {
        let mid = rolled(window, a);
        if i + b.len() < window.len() {
            assert(lhs[i] == mid[i + b.len()]);
        }
    }
    assert(lhs =~= rhs);
}

/// The analysis frame: the newest `min(samples.len(), size)` samples placed at
/// the end, and silence before them.
pub open spec fn newest_aligned<T>(samples: Seq<T>, size: nat, silence: T) -> Seq<T> {
    let n = if samples.len() < size {
        samples.len()
    } else {
        size
    };
    Seq::new((size - n) as nat, |_i: int| silence) + samples.subrange(
        samples.len() - n,
        samples.len() as int,
    )
}

/// The analysis frame holds `size` slots: silence first, then the newest
/// samples in their order, the very last sample in the last slot.
pub proof fn lemma_frame_layout<T>(samples: Seq<T>, size: nat, silence: T)
    ensures
        newest_aligned(samples, size, silence).len() == size,
        forall|k: int|
            0 <= k < size - samples.len() ==> #[trigger] newest_aligned(samples, size, silence)[k]
                == silence,
        forall|k: int|
            0 <= k < size && k >= size - samples.len() ==> #[trigger] newest_aligned(
                samples,
                size,
                silence,
            )[k] == samples[samples.len() - size + k],
{
}

/// Lay out the most recent `size` samples newest-aligned to the end of a
/// frame of `size` slots; missing samples (at start-up) become `silence`.
pub fn align_newest<T: Copy>(samples: &[T], size: usize, silence: T) -> (frame: Vec<T>)
    ensures
        frame@ == newest_aligned(samples@, size as nat, silence),
{
    let len = samples.len();
    let n = if len < size {
        len
    } else {
        size
    };
    let pad = size - n;
    let ghost target = newest_aligned(samples@, size as nat, silence);
    let mut frame: Vec<T> = Vec::new();
    let mut k: usize = 0;
    while k < pad
        invariant
            k <= pad,
            pad == size - n,
            n == (if len < size {
                len
            } else {
                size
            }),
            len == samples@.len(),
            target == newest_aligned(samples@, size as nat, silence),
            frame@.len() == k,
            forall|i: int| 0 <= i < k ==> frame@[i] == target[i],
        decreases pad - k,
    {
        frame.push(silence);
        k = k + 1;
    }
    let mut j: usize = 0;
    while j < n
        invariant
            j <= n,
            pad == size - n,
            n <= len,
            n == (if len < size {
                len
            } else {
                size
            }),
            len == samples@.len(),
            target == newest_aligned(samples@, size as nat, silence),
            frame@.len() == pad + j,
            forall|i: int| 0 <= i < pad + j ==> frame@[i] == target[i],
        decreases n - j,
    {
        frame.push(samples[len - n + j]);
        j = j + 1;
    }
    assert(frame@ =~= target);
    frame
}

/// The FFT bins averaged for a frequency band, from the bins of its edge
/// frequencies: the DC bin is skipped, the band stops at the Nyquist bin, and
/// it always holds at least one bin.
pub fn band_bins(lo_bin: usize, hi_bin: usize) -> (range: (usize, usize))
    requires
        lo_bin < usize::MAX,
    ensures
        range.0 == max(lo_bin as int, 1),
        range.1 == max(min(hi_bin as int, (FFT_SIZE / 2) as int), range.0 + 1),
        range.0 < range.1,
{
    let lo = if lo_bin < 1 {
        1
    } else {
        lo_bin
    };
    let capped = if hi_bin < FFT_SIZE / 2 {
        hi_bin
    } else {
        FFT_SIZE / 2
    };
    let hi = if capped < lo + 1 {
        lo + 1
    } else {
        capped
    };
    (lo, hi)
}

/// The FFT bins averaged for one spectrum bin, from the floor of its lower
/// edge and the ceiling of its upper edge: at least one bin wide, then cut at
/// the `usable` bins below Nyquist.
pub fn spectrum_bins(lo: usize, hi_ceil: usize, usable: usize) -> (range: (usize, usize))
    requires
        lo < usize::MAX,
    ensures
        range.0 == lo,
        range.1 == min(max(hi_ceil as int, lo + 1), usable as int),
{
    let widened = if hi_ceil < lo + 1 {
        lo + 1
    } else {
        hi_ceil
    };
    let hi = if widened < usable {
        widened
    } else {
        usable
    };
    (lo, hi)
}

/// One step of the xorshift generator: shifts by 13 left, 17 right, 5 left.
pub open spec fn xorshift_step(x: u32) -> u32 {
    let a = x ^ (x << 13u32);
    let b = a ^ (a >> 17u32);
    b ^ (b << 5u32)
}

/// Advance the synthetic signal's noise generator.
pub fn xorshift32(state: u32) -> (next: u32)
    ensures
        next == xorshift_step(state),
{
    let a = state ^ (state << 13u32);
    let b = a ^ (a >> 17u32);
    b ^ (b << 5u32)
}

/// The generator never falls into the all-zero state from another state, so
/// the noise never dies out.
pub proof fn lemma_xorshift_nonzero(x: u32)
    requires
        x != 0,
    ensures
        xorshift_step(x) != 0,
{
    assert(x != 0 ==> ((x ^ (x << 13u32)) ^ ((x ^ (x << 13u32)) >> 17u32)) ^ (((x ^ (x
        << 13u32)) ^ ((x ^ (x << 13u32)) >> 17u32)) << 5u32) != 0) by (bit_vector);
}

} // verus!
