//! Framing layout: which samples of a signal land in which frame.
//!
//! The sample values themselves are opaque here (any `Copy` type); windowing
//! multiplies them afterwards.
use vstd::arithmetic::div_mod::{lemma_fundamental_div_mod, lemma_fundamental_div_mod_converse};
use vstd::prelude::*;

use super::window::Window;

verus! {

/// Errors produced by signal operations.
#[derive(Debug)]
pub enum SignalError {
    /// Invalid frame configuration.
    InvalidConfig(&'static str),
    /// Invalid channel index.
    ChannelOutOfRange {
        /// The requested channel index.
        requested: usize,
        /// The number of available channels.
        available: usize,
    },
    /// Audio buffer is empty.
    EmptyBuffer,
}

/// How to handle padding when the last frame extends past the end.
#[derive(Debug, Clone, Copy, PartialEq, Eq, Structural)]
pub enum Padding {
    /// Do not pad: only include frames fully contained in the signal.
    NoPad,
    /// Pad the final frame with zeros so the last hop is included.
    ZeroPadEnd,
}

/// How to select channels for framing. There is no implicit downmix.
#[derive(Debug, Clone, Copy, PartialEq, Eq, Structural)]
pub enum ChannelMode {
    /// Extract a single channel (0-based).
    Channel(usize),
    /// Mix down all channels into mono by averaging.
    MixDownAverage,
}

/// Configuration for framing a signal.
#[derive(Debug, Clone)]
pub struct FrameConfig {
    /// Frame length in samples (per channel).
    pub frame_size: usize,
    /// Hop length in samples (per channel).
    pub hop_size: usize,
    /// Window type applied to each frame.
    pub window: Window,
    /// Padding strategy for the end of the signal.
    pub padding: Padding,
    /// Channel selection strategy.
    pub channel_mode: ChannelMode,
    /// If true, pad `frame_size / 2` zeros at both ends so that the first
    /// frame is centered at sample 0.
    pub center: bool,
}

/// The preset shared by `standard`, `music` and `speech`: Hann window,
/// zero-padded end, mono mixdown, centered frames.
pub open spec fn is_mono_preset(c: FrameConfig, frame_size: usize, hop_size: usize) -> bool {
    &&& c.frame_size == frame_size
    &&& c.hop_size == hop_size
    &&& c.window == Window::Hann
    &&& c.padding == Padding::ZeroPadEnd
    &&& c.channel_mode == ChannelMode::MixDownAverage
    &&& c.center
}

impl Default for FrameConfig {
    /// 2048-sample frames, 512 hop, Hann window, channel 0, centered.
    fn default() -> (c: Self)
        ensures
            c.frame_size == 2048,
            c.hop_size == 512,
            c.window == Window::Hann,
            c.padding == Padding::ZeroPadEnd,
            c.channel_mode == ChannelMode::Channel(0),
            c.center,
    {
        FrameConfig {
            frame_size: 2048,
            hop_size: 512,
            window: Window::Hann,
            padding: Padding::ZeroPadEnd,
            channel_mode: ChannelMode::Channel(0),
            center: true,
        }
    }
}

impl FrameConfig {
    /// Standard analysis preset: 2048-sample frames, 512 hop, mono mix.
    pub fn standard() -> (c: Self)
        ensures
            is_mono_preset(c, 2048, 512),
    {
        FrameConfig {
            frame_size: 2048,
            hop_size: 512,
            window: Window::Hann,
            padding: Padding::ZeroPadEnd,
            channel_mode: ChannelMode::MixDownAverage,
            center: true,
        }
    }

    /// Music analysis preset: 4096-sample frames, 1024 hop, mono mix.
    pub fn music() -> (c: Self)
        ensures
            is_mono_preset(c, 4096, 1024),
    {
        FrameConfig {
            frame_size: 4096,
            hop_size: 1024,
            window: Window::Hann,
            padding: Padding::ZeroPadEnd,
            channel_mode: ChannelMode::MixDownAverage,
            center: true,
        }
    }

    /// Speech analysis preset: 512-sample frames, 256 hop, mono mix.
    pub fn speech() -> (c: Self)
        ensures
            is_mono_preset(c, 512, 256),
    {
        FrameConfig {
            frame_size: 512,
            hop_size: 256,
            window: Window::Hann,
            padding: Padding::ZeroPadEnd,
            channel_mode: ChannelMode::MixDownAverage,
            center: true,
        }
    }
}

/// Checks the frame and hop sizes.
pub fn validate_config(config: &FrameConfig) -> (r: Result<(), SignalError>)
    ensures
        config.frame_size == 0 ==> (r matches Err(SignalError::InvalidConfig(m)) && m@
            == "frame_size must be > 0"@),
        config.frame_size != 0 && config.hop_size == 0 ==> (r matches Err(
            SignalError::InvalidConfig(m),
        ) && m@ == "hop_size must be > 0"@),
        r is Ok <==> (config.frame_size != 0 && config.hop_size != 0),
{
    if config.frame_size == 0 {
        return Err(SignalError::InvalidConfig("frame_size must be > 0"));
    }
    if config.hop_size == 0 {
        return Err(SignalError::InvalidConfig("hop_size must be > 0"));
    }
    Ok(())
}

/// Whether an interleaved buffer of `n_samples` samples over `channels`
/// channels can be framed with `config`.
pub open spec fn frame_input_ok(n_samples: nat, channels: nat, config: FrameConfig) -> bool {
    &&& config.frame_size != 0
    &&& config.hop_size != 0
    &&& n_samples != 0
    &&& channels != 0
    &&& n_samples % channels == 0
    &&& (config.channel_mode matches ChannelMode::Channel(ch) ==> ch < channels)
}

/// Checks an interleaved buffer shape against `config`, in this order:
/// the configuration, an empty buffer, zero channels, a sample count that
/// is not a multiple of the channel count, and an out-of-range channel.
pub fn check_frame_input(n_samples: usize, channels: usize, config: &FrameConfig) -> (r: Result<
    (),
    SignalError,
>)
    ensures
        r is Ok <==> frame_input_ok(n_samples as nat, channels as nat, *config),
        config.frame_size == 0 ==> (r matches Err(SignalError::InvalidConfig(m)) && m@
            == "frame_size must be > 0"@),
        config.frame_size != 0 && config.hop_size == 0 ==> (r matches Err(
            SignalError::InvalidConfig(m),
        ) && m@ == "hop_size must be > 0"@),
        config.frame_size != 0 && config.hop_size != 0 && n_samples == 0 ==> (r matches Err(
            SignalError::EmptyBuffer,
        )),
        config.frame_size != 0 && config.hop_size != 0 && n_samples != 0 && channels == 0 ==> (
        r matches Err(SignalError::InvalidConfig(m)) && m@ == "audio.channels must be > 0"@),
        config.frame_size != 0 && config.hop_size != 0 && n_samples != 0 && channels != 0
            && n_samples % channels != 0 ==> (r matches Err(SignalError::InvalidConfig(m)) && m@
            == "audio.samples length must be divisible by audio.channels"@),
        config.frame_size != 0 && config.hop_size != 0 && n_samples != 0 && channels != 0
            && n_samples % channels == 0 ==> match config.channel_mode {
            ChannelMode::Channel(ch) => ch >= channels ==> (r matches Err(
                SignalError::ChannelOutOfRange { requested, available },
            ) && requested == ch && available == channels),
            ChannelMode::MixDownAverage => true,
        },
{
    validate_config(config)?;
    if n_samples == 0 {
        return Err(SignalError::EmptyBuffer);
    }
    if channels == 0 {
        return Err(SignalError::InvalidConfig("audio.channels must be > 0"));
    }
    if n_samples % channels != 0 {
        return Err(
            SignalError::InvalidConfig("audio.samples length must be divisible by audio.channels"),
        );
    }
    match config.channel_mode {
        ChannelMode::Channel(ch) => {
            if ch >= channels {
                return Err(SignalError::ChannelOutOfRange { requested: ch, available: channels });
            }
        },
        ChannelMode::MixDownAverage => {},
    }
    Ok(())
}

/// Number of frames emitted for `n` samples: with `Padding::NoPad`, the
/// starts `0, hop, 2*hop, ...` whose frame lies fully inside the signal;
/// with `Padding::ZeroPadEnd`, every start inside the signal.
pub open spec fn frame_count(n: int, frame_size: int, hop: int, padding: Padding) -> int {
    match padding {
        Padding::NoPad => if n < frame_size {
            0
        } else {
            (n - frame_size) / hop + 1
        },
        Padding::ZeroPadEnd => if n == 0 {
            0
        } else {
            (n - 1) / hop + 1
        },
    }
}

/// Length covered by `count` frames: the last start plus one frame.
pub open spec fn covered_len(count: int, frame_size: int, hop: int) -> int {
    if count == 0 {
        0
    } else {
        (count - 1) * hop + frame_size
    }
}

/// The last sample a frame may start at, exclusive bound style:
/// a start `s` is admitted when `s < start_limit`.
pub open spec fn start_limit(n: int, frame_size: int, padding: Padding) -> int {
    match padding {
        Padding::NoPad => n - frame_size + 1,
        Padding::ZeroPadEnd => n,
    }
}

proof fn lemma_frame_count_is_start_count(n: int, frame_size: int, hop: int, padding: Padding)
    requires
        n >= 0,
        frame_size >= 0,
        hop > 0,
    ensures
        ({
            let c = frame_count(n, frame_size, hop, padding);
            let lim = start_limit(n, frame_size, padding);
            &&& c >= 0
            &&& c > 0 ==> (c - 1) * hop < lim
            &&& c * hop >= lim
        }),
{
    let c = frame_count(n, frame_size, hop, padding);
    let lim = start_limit(n, frame_size, padding);
    if lim > 0 {
        let m = lim - 1;
        lemma_fundamental_div_mod(m, hop);
        assert(c == m / hop + 1);
        assert(m == hop * (m / hop) + m % hop);
        assert((c - 1) * hop == hop * (m / hop)) by (nonlinear_arith)
            requires
                c - 1 == m / hop,
        ;
        assert(c * hop == (c - 1) * hop + hop) by (nonlinear_arith);
    } else {
        assert(c == 0);
    }
}

/// Number of frames to emit and the covered length `(n_frames, total_len)`.
pub fn compute_frame_count(n_samples: usize, frame_size: usize, hop_size: usize, padding: Padding) -> (r: (
    usize,
    usize,
))
    requires
        hop_size > 0,
        padding == Padding::NoPad ==> frame_size > 0 || n_samples < usize::MAX,
        padding == Padding::ZeroPadEnd && n_samples > 0 ==> n_samples - 1 + frame_size
            <= usize::MAX,
    ensures
        r.0 == frame_count(n_samples as int, frame_size as int, hop_size as int, padding),
        r.1 == covered_len(r.0 as int, frame_size as int, hop_size as int),
        r.0 > 0 ==> (r.0 - 1) * hop_size < start_limit(
            n_samples as int,
            frame_size as int,
            padding,
        ),
        r.0 * hop_size >= start_limit(n_samples as int, frame_size as int, padding),
        padding == Padding::NoPad ==> r.1 <= n_samples,
{
    proof {
        lemma_frame_count_is_start_count(n_samples as int, frame_size as int, hop_size as int, padding);
    }
    match padding {
        Padding::NoPad => {
            if n_samples < frame_size {
                return (0, 0);
            }
            let last_start = n_samples - frame_size;
            let n_frames = (last_start / hop_size) + 1;
            proof {
                lemma_fundamental_div_mod(last_start as int, hop_size as int);
                assert((n_frames - 1) * hop_size <= last_start) by (nonlinear_arith)
                    requires
                        n_frames - 1 == last_start / hop_size,
                        last_start == hop_size * (last_start / hop_size) + last_start % hop_size,
                        last_start % hop_size >= 0,
                ;
            }
            let total_len = (n_frames - 1) * hop_size + frame_size;
            (n_frames, total_len)
        },
        Padding::ZeroPadEnd => {
            if n_samples == 0 {
                return (0, 0);
            }
            let last_start = n_samples - 1;
            let n_frames = (last_start / hop_size) + 1;
            proof {
                lemma_fundamental_div_mod(last_start as int, hop_size as int);
                assert((n_frames - 1) * hop_size <= last_start) by (nonlinear_arith)
                    requires
                        n_frames - 1 == last_start / hop_size,
                        last_start == hop_size * (last_start / hop_size) + last_start % hop_size,
                        last_start % hop_size >= 0,
                ;
            }
            let total_len = (n_frames - 1) * hop_size + frame_size;
            (n_frames, total_len)
        },
    }
}

proof fn lemma_row_index_in_bounds(i: int, width: int, j: int, len: int)
    requires
        width > 0,
        len >= 0,
        0 <= i < len / width,
        0 <= j < width,
    ensures
        0 <= i * width + j < len,
{
    lemma_fundamental_div_mod(len, width);
    let q = len / width;
    assert(i * width + j < len) by (nonlinear_arith)
        requires
            0 <= i < q,
            0 <= j < width,
            len == width * q + len % width,
            len % width >= 0,
    ;
    assert(0 <= i * width) by (nonlinear_arith)
        requires
            0 <= i,
            0 < width,
    ;
}

/// Extracts one channel `ch` of an interleaved buffer of `channels`
/// channels, or reports `ChannelOutOfRange` when there is no such channel.
pub fn extract_channel<T: Copy>(samples: &[T], channels: usize, ch: usize) -> (r: Result<
    Vec<T>,
    SignalError,
>)
    requires
        channels > 0,
    ensures
        ch >= channels ==> (r matches Err(SignalError::ChannelOutOfRange { requested, available })
            && requested == ch && available == channels),
        ch < channels ==> (r matches Ok(out) && out.len() == samples.len() / channels && forall|
            i: int,
        | 0 <= i < out.len() ==> #[trigger] out@[i] == samples@[i * channels + ch]),
{
    if ch >= channels {
        return Err(SignalError::ChannelOutOfRange { requested: ch, available: channels });
    }
    let n_frames = samples.len() / channels;
    let mut out: Vec<T> = Vec::with_capacity(n_frames);
    let mut i: usize = 0;
    while i < n_frames
        invariant
            ch < channels,
            n_frames == samples.len() / channels,
            i <= n_frames,
            out.len() == i,
            forall|k: int| 0 <= k < i ==> #[trigger] out@[k] == samples@[k * channels + ch],
        decreases n_frames - i,
    {
        proof {
            lemma_row_index_in_bounds(i as int, channels as int, ch as int, samples.len() as int);
        }
        out.push(samples[i * channels + ch]);
        i += 1;
    }
    Ok(out)
}

/// The frame boundary policy once centering is decided: centered frames
/// count only fully contained frames, since the centering pad already
/// covers the edges.
pub open spec fn effective_padding(config: FrameConfig) -> Padding {
    if config.center {
        Padding::NoPad
    } else {
        config.padding
    }
}

/// The signal after optional centering: `frame_size / 2` copies of `zero`
/// on both sides.
pub open spec fn padded_signal<T>(x: Seq<T>, zero: T, config: FrameConfig) -> Seq<T> {
    if config.center {
        let pad = (config.frame_size / 2) as nat;
        Seq::new(pad, |_i: int| zero) + x + Seq::new(pad, |_i: int| zero)
    } else {
        x
    }
}

/// Element `k` of the row-major frame matrix: frame `k / frame_size`,
/// offset `k % frame_size`, read from the signal at
/// `frame * hop + offset`, or `zero` past its end.
pub open spec fn framed_sample<T>(signal: Seq<T>, zero: T, frame_size: int, hop: int, k: int) -> T {
    let pos = (k / frame_size) * hop + k % frame_size;
    if pos < signal.len() {
        signal[pos]
    } else {
        zero
    }
}

/// Whether framing `n` samples with `config` stays within `usize`.
pub open spec fn framing_fits(n: nat, config: FrameConfig) -> bool {
    let padded_len = if config.center {
        n + 2 * (config.frame_size / 2)
    } else {
        n as int
    };
    let count = frame_count(
        padded_len,
        config.frame_size as int,
        config.hop_size as int,
        effective_padding(config),
    );
    &&& padded_len + config.frame_size <= usize::MAX
    &&& count * config.frame_size <= usize::MAX
}

/// Lays a mono signal out as overlapping frames, row-major
/// (`n_frames * frame_size` values), and returns the frames with their count.
pub fn frame_signal<T: Copy>(x: &[T], zero: T, config: &FrameConfig) -> (r: (Vec<T>, usize))
    requires
        config.frame_size > 0,
        config.hop_size > 0,
        framing_fits(x.len() as nat, *config),
    ensures
        ({
            let padded = padded_signal(x@, zero, *config);
            &&& r.1 == frame_count(
                padded.len() as int,
                config.frame_size as int,
                config.hop_size as int,
                effective_padding(*config),
            )
            &&& r.0.len() == r.1 * config.frame_size
            &&& forall|k: int|
                0 <= k < r.0.len() ==> #[trigger] r.0@[k] == framed_sample(
                    padded,
                    zero,
                    config.frame_size as int,
                    config.hop_size as int,
                    k,
                )
        }),
{
    let fs = config.frame_size;
    let hop = config.hop_size;
    let ghost padded_spec = padded_signal(x@, zero, *config);
    let mut signal: Vec<T> = Vec::new();
    if config.center {
        let pad = fs / 2;
        let mut i: usize = 0;
        while i < pad
            invariant
                i <= pad,
                signal.len() == i,
                forall|k: int| 0 <= k < i ==> #[trigger] signal@[k] == zero,
            decreases pad - i,
        {
            signal.push(zero);
            i += 1;
        }
        let mut i: usize = 0;
        while i < x.len()
            invariant
                i <= x.len(),
                signal.len() == pad + i,
                pad + x.len() + pad <= usize::MAX,
                forall|k: int| 0 <= k < pad ==> #[trigger] signal@[k] == zero,
                forall|k: int| pad <= k < pad + i ==> #[trigger] signal@[k] == x@[k - pad],
            decreases x.len() - i,
        {
            signal.push(x[i]);
            i += 1;
        }
        let mut i: usize = 0;
        while i < pad
            invariant
                i <= pad,
                signal.len() == pad + x.len() + i,
                pad + x.len() + pad <= usize::MAX,
                forall|k: int| 0 <= k < pad ==> #[trigger] signal@[k] == zero,
                forall|k: int| pad <= k < pad + x.len() ==> #[trigger] signal@[k] == x@[k - pad],
                forall|k: int|
                    pad + x.len() <= k < pad + x.len() + i ==> #[trigger] signal@[k] == zero,
            decreases pad - i,
        {
            signal.push(zero);
            i += 1;
        }
        assert(signal@ =~= padded_spec);
    } else {
        let mut i: usize = 0;
        while i < x.len()
            invariant
                i <= x.len(),
                signal.len() == i,
                forall|k: int| 0 <= k < i ==> #[trigger] signal@[k] == x@[k],
            decreases x.len() - i,
        {
            signal.push(x[i]);
            i += 1;
        }
        assert(signal@ =~= padded_spec);
    }
    let n = signal.len();
    let padding = if config.center {
        Padding::NoPad
    } else {
        config.padding
    };
    let (n_frames, total_len) = compute_frame_count(n, fs, hop, padding);
    let mut out: Vec<T> = Vec::new();
    let mut i: usize = 0;
    while i < n_frames
        invariant
            fs == config.frame_size,
            hop == config.hop_size,
            fs > 0,
            hop > 0,
            signal@ == padded_spec,
            n == signal.len(),
            n_frames * fs <= usize::MAX,
            total_len == covered_len(n_frames as int, fs as int, hop as int),
            total_len <= usize::MAX,
            i <= n_frames,
            out.len() == i * fs,
            forall|k: int|
                0 <= k < out.len() ==> #[trigger] out@[k] == framed_sample(
                    padded_spec,
                    zero,
                    fs as int,
                    hop as int,
                    k,
                ),
        decreases n_frames - i,
    {
        proof {
            assert(i * hop + fs <= total_len) by (nonlinear_arith)
                requires
                    i < n_frames,
                    total_len == (n_frames - 1) * hop + fs,
                    hop > 0,
            ;
            assert((i + 1) * fs <= n_frames * fs) by (nonlinear_arith)
                requires
                    i < n_frames,
                    fs > 0,
            ;
            assert((i + 1) * fs == i * fs + fs) by (nonlinear_arith);
        }
        let start = i * hop;
        let mut j: usize = 0;
        while j < fs
            invariant
                fs == config.frame_size,
                hop == config.hop_size,
                fs > 0,
                signal@ == padded_spec,
                n == signal.len(),
                start == i * hop,
                start + fs <= usize::MAX,
                i * fs + fs <= usize::MAX,
                j <= fs,
                out.len() == i * fs + j,
                forall|k: int|
                    0 <= k < out.len() ==> #[trigger] out@[k] == framed_sample(
                        padded_spec,
                        zero,
                        fs as int,
                        hop as int,
                        k,
                    ),
            decreases fs - j,
        {
            let pos = start + j;
            let v = if pos < n {
                signal[pos]
            } else {
                zero
            };
            proof {
                let k = i * fs + j;
                lemma_fundamental_div_mod_converse(k as int, fs as int, i as int, j as int);
                assert(framed_sample(padded_spec, zero, fs as int, hop as int, k as int) == v);
            }
            out.push(v);
            j += 1;
        }
        assert((i + 1) * fs == i * fs + fs) by (nonlinear_arith);
        i += 1;
    }
    (out, n_frames)
}

/// Row `index` of a row-major matrix of `n_rows` rows of `row_len` values,
/// or `None` past the last row.
pub fn frame_row<T>(data: &[T], row_len: usize, n_rows: usize, index: usize) -> (r: Option<&[T]>)
    requires
        n_rows * row_len <= data@.len(),
    ensures
        index >= n_rows ==> r is None,
        index < n_rows ==> (r matches Some(row) && row@ == data@.subrange(
            index * row_len,
            index * row_len + row_len,
        )),
{
    if index >= n_rows {
        return None;
    }
    let total = data.len();
    proof {
        assert(index * row_len + row_len <= n_rows * row_len) by (nonlinear_arith)
            requires
                index < n_rows,
        ;
        assert(n_rows * row_len <= total);
        assert(0 <= index * row_len) by (nonlinear_arith);
    }
    let start = index * row_len;
    Some(vstd::slice::slice_subrange(data, start, start + row_len))
}

} // verus!
