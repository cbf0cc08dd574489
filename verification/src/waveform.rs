//! Waveform tiles, whatever a tile summarises: which generation of data is
//! current, the resolutions kept, each level's tiles channel by channel, the
//! visible window and the frames each of its pixel columns covers, which tiles
//! those frames touch, and whether a chunk of audio is taken.

use vstd::prelude::*;

use crate::text::{decimal, push_decimal, push_str};
use crate::time::frames::{clamp_i64, saturating_add_i64, saturating_mul_i64, Frames};
use vstd::arithmetic::div_mod::{lemma_fundamental_div_mod, lemma_fundamental_div_mod_converse};

verus! {

/// Samples per tile at each resolution kept, finest first.
pub const RESOLUTION_LADDER: [u32; 5] = [64, 256, 1_024, 8_192, 65_536];

/// Samples per tile at the finest resolution kept.
pub const FINEST_SAMPLES_PER_TILE: u64 = 64;

/// The most tiles a single level holds, so that a corrupted duration cannot
/// ask for an unbounded allocation.
pub const MAX_TILES_PER_LEVEL: u64 = 16_000_000;

/// Division that floors, with nothing to divide by meaning zero.
pub open spec fn floor_quotient(numerator: int, denominator: int) -> int {
    if denominator == 0 {
        0
    } else {
        numerator / denominator
    }
}

/// A negative numerator's floor, through the ceiling of its magnitude.
proof fn lemma_negative_floor(numerator: int, denominator: int, magnitude_ceiling: int)
    requires
        numerator < 0,
        denominator > 0,
        magnitude_ceiling == (-numerator + denominator - 1) / denominator,
    ensures
        -magnitude_ceiling == numerator / denominator,
{
    let q = numerator / denominator;
    let r = numerator % denominator;
    lemma_fundamental_div_mod(numerator, denominator);
    assert(0 <= r < denominator);
    assert(-numerator + denominator - 1 == (-q) * denominator + (denominator - 1 - r)) by (nonlinear_arith)
        requires
            numerator == denominator * q + r,
    ;
    lemma_fundamental_div_mod_converse(-numerator + denominator - 1, denominator, -q, denominator - 1 - r);
}

/// Rounding a positive magnitude up to whole divisions never gives more
/// divisions than the magnitude itself.
proof fn lemma_ceiling_within(magnitude: int, denominator: int)
    requires
        magnitude >= 1,
        denominator >= 1,
    ensures
        (magnitude + denominator - 1) / denominator <= magnitude,
{
    assert(magnitude + denominator - 1 <= magnitude * denominator) by (nonlinear_arith)
        requires
            magnitude >= 1,
            denominator >= 1,
    ;
    vstd::arithmetic::div_mod::lemma_div_is_ordered(magnitude + denominator - 1, magnitude * denominator, denominator);
    vstd::arithmetic::div_mod::lemma_div_by_multiple(magnitude, denominator);
}

/// A frame before the audio falls in a tile before the first.
proof fn lemma_negative_quotient(frame: int, divisor: int)
    requires
        frame < 0,
        divisor > 0,
    ensures
        frame / divisor < 0,
{
    let q = frame / divisor;
    lemma_fundamental_div_mod(frame, divisor);
    assert(q < 0) by (nonlinear_arith)
        requires
            frame == divisor * q + frame % divisor,
            frame % divisor >= 0,
            frame < 0,
            divisor > 0,
    ;
}

/// Integer division that floors, so that positions before the start of the
/// audio divide the way positions after it do.
pub fn floor_divide(numerator: i64, denominator: u32) -> (quotient: i64)
    ensures
        quotient == floor_quotient(numerator as int, denominator as int),
{
    if denominator == 0 {
        return 0;
    }
    let d = denominator as u64;
    if numerator >= 0 {
        let q = (numerator as u64) / d;
        assert(q <= numerator);
        q as i64
    } else {
        let magnitude = (-(numerator as i128)) as u64;
        let ceiling = (magnitude + d - 1) / d;
        proof {
            lemma_negative_floor(numerator as int, d as int, ceiling as int);
            lemma_ceiling_within(magnitude as int, d as int);
        }
        (-(ceiling as i128)) as i64
    }
}

/// The tiles a frame range touches, as a half-open range of indices into a
/// channel of `tiles` tiles: from the tile holding the first frame to the tile
/// holding the last, clipped to the channel, or `None` when the range is empty,
/// the tiles have no width, or the range starts past the last tile.
pub open spec fn tiles_touched(start_frame: int, end_frame: int, samples_per_tile: int, tiles: int) -> Option<
    (int, int),
> {
    let first = if start_frame / samples_per_tile < 0 {
        0
    } else {
        start_frame / samples_per_tile
    };
    let last = if (end_frame - 1) / samples_per_tile < 0 {
        0
    } else {
        (end_frame - 1) / samples_per_tile
    };
    if samples_per_tile <= 0 || end_frame <= start_frame || first >= tiles || last > usize::MAX {
        None
    } else {
        Some((first, if last + 1 < tiles { last + 1 } else { tiles }))
    }
}

/// The tiles a frame range touches: see [`tiles_touched`]. A range ending
/// exactly on a tile boundary does not touch the tile that begins there.
pub fn covered_tiles(start_frame: i64, end_frame: i64, samples_per_tile: i64, tiles: usize) -> (covered: Option<
    (usize, usize),
>)
    ensures
        match tiles_touched(start_frame as int, end_frame as int, samples_per_tile as int, tiles as int) {
            None => covered is None,
            Some((first, end)) => covered == Some((first as usize, end as usize)) && first < end,
        },
{
    if samples_per_tile <= 0 || end_frame <= start_frame {
        return None;
    }
    let spt = samples_per_tile as u32;
    let first = tile_index(start_frame, samples_per_tile);
    let last = tile_index(end_frame - 1, samples_per_tile);
    proof {
        lemma_floor_monotonic(start_frame as int, end_frame - 1, samples_per_tile as int);
    }
    if first as u64 >= tiles as u64 {
        return None;
    }
    if last as u64 > usize::MAX as u64 {
        return None;
    }
    let first_index = first as usize;
    let last_index = last as usize;
    let end_index = if last_index < tiles - 1 {
        last_index + 1
    } else {
        tiles
    };
    Some((first_index, end_index))
}

/// A frame's tile, counting frames before the audio as the first tile.
fn tile_index(frame: i64, samples_per_tile: i64) -> (index: i64)
    requires
        samples_per_tile > 0,
    ensures
        index == (if frame / samples_per_tile < 0 {
            0
        } else {
            frame / samples_per_tile
        }),
        index >= 0,
{
    if frame < 0 {
        proof {
            lemma_negative_quotient(frame as int, samples_per_tile as int);
        }
        return 0;
    }
    let q = (frame as u64) / (samples_per_tile as u64);
    assert(q <= frame);
    q as i64
}

/// Floor division keeps order.
proof fn lemma_floor_monotonic(low: int, high: int, divisor: int)
    requires
        low <= high,
        divisor > 0,
    ensures
        low / divisor <= high / divisor,
{
    vstd::arithmetic::div_mod::lemma_div_is_ordered(low, high, divisor);
}

/// Which generation of the waveform algorithm produced some data; data of any
/// other generation is regenerated rather than shown.
#[derive(Debug, Clone, Copy, PartialEq, Eq, PartialOrd, Ord, Hash, Structural)]
pub struct GenerationVersion(pub u32);

impl GenerationVersion {
    /// The generation this build produces.
    pub fn current() -> (version: GenerationVersion)
        ensures
            version.0 == 1,
    {
        GenerationVersion(1)
    }

    /// Wraps a stored generation.
    pub fn new(version: u32) -> (result: GenerationVersion)
        ensures
            result.0 == version,
    {
        GenerationVersion(version)
    }

    /// The raw generation.
    pub fn get(self) -> (version: u32)
        ensures
            version == self.0,
    {
        self.0
    }

    /// The generation as a person reads it: `v<n>`.
    pub fn to_text(self) -> (text: String)
        ensures
            text@ == "v"@ + decimal(self.0 as int),
    {
        let mut text = String::new();
        push_str(&mut text, "v");
        push_decimal(&mut text, self.0 as i128);
        text
    }

    /// Whether data of this generation may be shown: only the current one,
    /// neither older nor newer.
    pub fn is_current(self) -> (current: bool)
        ensures
            current == (self.0 == 1),
    {
        self.0 == 1
    }
}

/// The window of audio shown, and how many pixels it spans.
#[derive(Debug, Clone, Copy, PartialEq, Eq, Structural)]
pub struct Viewport {
    /// The first frame shown.
    pub start: Frames,
    /// The frame just past the last one shown.
    pub end: Frames,
    /// The width in pixels.
    pub pixels: u32,
}

impl Viewport {
    /// A window, or `None` when it is empty or has no pixels.
    pub fn new(start: Frames, end: Frames, pixels: u32) -> (viewport: Option<Viewport>)
        ensures
            (end.0 <= start.0 || pixels == 0) ==> viewport is None,
            !(end.0 <= start.0 || pixels == 0) ==> viewport == Some(Viewport { start, end, pixels }),
    {
        if end.0 <= start.0 || pixels == 0 {
            return None;
        }
        Some(Viewport { start, end, pixels })
    }

    /// How many frames the window spans, saturating.
    pub fn frame_span(self) -> (span: i64)
        ensures
            span == clamp_i64(self.end.0 - self.start.0),
    {
        crate::time::frames::saturating_sub_i64(self.end.0, self.start.0)
    }

    /// The window as a person reads it: `<start>..<end> across <pixels> px`.
    pub fn to_text(self) -> (text: String)
        ensures
            text@ == decimal(self.start.0 as int) + ".."@ + decimal(self.end.0 as int) + " across "@ + decimal(
                self.pixels as int,
            ) + " px"@,
    {
        let mut text = String::new();
        push_decimal(&mut text, self.start.0 as i128);
        push_str(&mut text, "..");
        push_decimal(&mut text, self.end.0 as i128);
        push_str(&mut text, " across ");
        push_decimal(&mut text, self.pixels as i128);
        push_str(&mut text, " px");
        text
    }

    /// The frames a column of the window covers, from its first frame to the
    /// frame just past its last. Computed from the column's index rather than
    /// accumulated, so that rounding cannot drift across the width of the view.
    pub fn column_frames(self, column: u32) -> (frames: (i64, i64))
        ensures
            frames.0 == clamp_i64(
                self.start.0 + floor_quotient(clamp_i64(clamp_i64(self.end.0 - self.start.0) * column), self.pixels as int),
            ),
            frames.1 == clamp_i64(
                self.start.0 + floor_quotient(
                    clamp_i64(clamp_i64(self.end.0 - self.start.0) * (column + 1)),
                    self.pixels as int,
                ),
            ),
    {
        let span = self.frame_span();
        let from = saturating_mul_i64(span, column as i64);
        let to = saturating_mul_i64(span, column as i64 + 1);
        (
            saturating_add_i64(self.start.0, floor_divide(from, self.pixels)),
            saturating_add_i64(self.start.0, floor_divide(to, self.pixels)),
        )
    }
}

/// Why a waveform could not be built.
#[derive(Debug, Clone, Copy, PartialEq, Eq, Structural)]
#[non_exhaustive]
pub enum WaveformError {
    /// No channels.
    ZeroChannels,
    /// A chunk with a different number of channels than the waveform.
    ChannelCountMismatch {
        /// The waveform's channels.
        expected: usize,
        /// The chunk's channels.
        supplied: usize,
    },
    /// Channels of different lengths in one chunk.
    RaggedChunk,
    /// More audio than the allocation bound allows.
    TooLarge,
}

/// How a waveform error reads.
pub open spec fn waveform_error_text(error: WaveformError) -> Seq<char> {
    match error {
        WaveformError::ZeroChannels => "a waveform must have at least one channel"@,
        WaveformError::ChannelCountMismatch { expected, supplied } => "expected "@ + decimal(
            expected as int,
        ) + " channels, got "@ + decimal(supplied as int),
        WaveformError::RaggedChunk => "channels in a chunk must be the same length"@,
        WaveformError::TooLarge => "waveform exceeds the allocation bound"@,
    }
}

impl WaveformError {
    /// The error as a person reads it.
    pub fn to_text(self) -> (text: String)
        ensures
            text@ == waveform_error_text(self),
    {
        let mut text = String::new();
        match self {
            WaveformError::ZeroChannels => {
                push_str(&mut text, "a waveform must have at least one channel");
            },
            WaveformError::ChannelCountMismatch { expected, supplied } => {
                push_str(&mut text, "expected ");
                push_decimal(&mut text, expected as i128);
                push_str(&mut text, " channels, got ");
                push_decimal(&mut text, supplied as i128);
            },
            WaveformError::RaggedChunk => {
                push_str(&mut text, "channels in a chunk must be the same length");
            },
            WaveformError::TooLarge => {
                push_str(&mut text, "waveform exceeds the allocation bound");
            },
        }
        assert(text@ =~= waveform_error_text(self));
        text
    }
}

/// Whether every channel of a chunk has as many frames as the first.
pub open spec fn same_lengths(lengths: Seq<usize>) -> bool {
    forall|i: int| 0 <= i < lengths.len() ==> #[trigger] lengths[i] == lengths[0]
}

/// What a chunk of planar audio does to a builder that has consumed
/// `consumed` frames of `channels` channels: the frames consumed after it, or
/// why it is refused. A chunk is refused, in this order, for having another
/// number of channels, for having none, for channels of different lengths,
/// and for taking the finest level past its tile bound.
pub open spec fn chunk_outcome(channels: int, consumed: int, lengths: Seq<usize>) -> Result<u64, WaveformError> {
    if lengths.len() != channels {
        Err(WaveformError::ChannelCountMismatch { expected: channels as usize, supplied: lengths.len() as usize })
    } else if lengths.len() == 0 {
        Err(WaveformError::ZeroChannels)
    } else if !same_lengths(lengths) {
        Err(WaveformError::RaggedChunk)
    } else if consumed + lengths[0] > u64::MAX || (consumed + lengths[0]) / (FINEST_SAMPLES_PER_TILE as int)
        > MAX_TILES_PER_LEVEL {
        Err(WaveformError::TooLarge)
    } else {
        Ok((consumed + lengths[0]) as u64)
    }
}

/// Checks a chunk of planar audio, given by the length of each channel,
/// against a builder of `channels` channels that has consumed `consumed`
/// frames: the frames consumed once it is taken, or why it is refused.
pub fn check_chunk(channels: usize, consumed: u64, lengths: &[usize]) -> (outcome: Result<u64, WaveformError>)
    ensures
        outcome == chunk_outcome(channels as int, consumed as int, lengths@),
{
    if lengths.len() != channels {
        return Err(WaveformError::ChannelCountMismatch { expected: channels, supplied: lengths.len() });
    }
    if lengths.len() == 0 {
        return Err(WaveformError::ZeroChannels);
    }
    let frames = lengths[0];
    let mut index: usize = 1;
    while index < lengths.len()
        invariant
            1 <= index <= lengths.len(),
            lengths.len() == channels,
            frames == lengths@[0],
            forall|i: int| 0 <= i < index ==> #[trigger] lengths@[i] == frames,
        decreases lengths.len() - index,
    {
        if lengths[index] != frames {
            assert(lengths@[index as int] != lengths@[0]);
            return Err(WaveformError::RaggedChunk);
        }
        index = index + 1;
    }
    let projected = match consumed.checked_add(frames as u64) {
        Some(projected) => projected,
        None => {
            return Err(WaveformError::TooLarge);
        },
    };
    if projected / FINEST_SAMPLES_PER_TILE > MAX_TILES_PER_LEVEL {
        return Err(WaveformError::TooLarge);
    }
    Ok(projected)
}

/// The tiles of every channel, one channel after another.
pub open spec fn channel_major<T>(columns: Seq<Vec<T>>) -> Seq<T> {
    columns.map_values(|column: Vec<T>| column@).flatten_alt()
}

/// One resolution band: tiles of a fixed number of samples, for every
/// channel, whatever a tile summarises.
#[derive(Debug, Clone, PartialEq)]
pub struct WaveformLevel<T> {
    samples_per_tile: u32,
    channels: usize,
    tiles_per_channel: usize,
    /// Channel-major: channel `c` occupies `c * tiles_per_channel ..`.
    tiles: Vec<T>,
}

impl<T: Copy> WaveformLevel<T> {
    /// Samples summarised by one tile.
    pub closed spec fn spec_samples_per_tile(&self) -> u32 {
        self.samples_per_tile
    }

    /// Number of channels.
    pub closed spec fn spec_channels(&self) -> usize {
        self.channels
    }

    /// Tiles in each channel.
    pub closed spec fn spec_tiles_per_channel(&self) -> usize {
        self.tiles_per_channel
    }

    /// Every tile, channel after channel.
    pub closed spec fn spec_tiles(&self) -> Seq<T> {
        self.tiles@
    }

    /// A level from each channel's tiles in turn. Each channel is taken to
    /// hold as many tiles as the first.
    pub fn from_columns(samples_per_tile: u32, columns: Vec<Vec<T>>) -> (level: WaveformLevel<T>)
        ensures
            level.spec_samples_per_tile() == samples_per_tile,
            level.spec_channels() == columns@.len(),
            level.spec_tiles_per_channel() == (if columns@.len() == 0 {
                0
            } else {
                columns@[0]@.len()
            }),
            level.spec_tiles() == channel_major(columns@),
    {
        let ghost views = columns@.map_values(|column: Vec<T>| column@);
        let mut tiles: Vec<T> = Vec::new();
        let mut k: usize = 0;
        assert(views.take(0) =~= Seq::<Seq<T>>::empty());
        while k < columns.len()
            invariant
                k <= columns@.len(),
                views == columns@.map_values(|column: Vec<T>| column@),
                tiles@ == views.take(k as int).flatten_alt(),
            decreases columns@.len() - k,
        {
            let column = &columns[k];
            let mut j: usize = 0;
            while j < column.len()
                invariant
                    j <= column@.len(),
                    k < columns@.len(),
                    *column == columns@[k as int],
                    tiles@ == views.take(k as int).flatten_alt() + column@.take(j as int),
                decreases column@.len() - j,
            {
                tiles.push(column[j]);
                proof {
                    assert(column@.take(j as int + 1) =~= column@.take(j as int).push(column@[j as int]));
                }
                j += 1;
            }
            proof {
                assert(column@.take(column@.len() as int) =~= column@);
                assert(views.take(k as int + 1).drop_last() =~= views.take(k as int));
                assert(views.take(k as int + 1).last() == column@);
            }
            k += 1;
        }
        assert(views.take(columns@.len() as int) =~= views);
        let tiles_per_channel = if columns.len() == 0 {
            0
        } else {
            columns[0].len()
        };
        WaveformLevel { samples_per_tile, channels: columns.len(), tiles_per_channel, tiles }
    }

    /// Samples summarised by one tile.
    pub fn samples_per_tile(&self) -> (samples: u32)
        ensures
            samples == self.spec_samples_per_tile(),
    {
        self.samples_per_tile
    }

    /// Tiles in each channel.
    pub fn tiles_per_channel(&self) -> (tiles: usize)
        ensures
            tiles == self.spec_tiles_per_channel(),
    {
        self.tiles_per_channel
    }

    /// Number of channels.
    pub fn channels(&self) -> (channels: usize)
        ensures
            channels == self.spec_channels(),
    {
        self.channels
    }

    /// One channel's tiles, or `None` for a channel the level does not hold.
    pub fn channel(&self, channel: usize) -> (tiles: Option<&[T]>)
        ensures
            match tiles {
                Some(found) => {
                    let start = channel * self.spec_tiles_per_channel();
                    &&& start + self.spec_tiles_per_channel() <= self.spec_tiles().len()
                    &&& found@ == self.spec_tiles().subrange(start, start + self.spec_tiles_per_channel())
                },
                None => channel * self.spec_tiles_per_channel() + self.spec_tiles_per_channel()
                    > self.spec_tiles().len(),
            },
    {
        let length = self.tiles.len();
        assert(self.tiles@.len() == length);
        let start = match channel.checked_mul(self.tiles_per_channel) {
            Some(start) => start,
            None => {
                assert(channel * self.tiles_per_channel + self.tiles_per_channel > length) by (nonlinear_arith)
                    requires
                        channel * self.tiles_per_channel > usize::MAX,
                        length <= usize::MAX,
                        self.tiles_per_channel >= 0,
                ;
                return None;
            },
        };
        let end = match start.checked_add(self.tiles_per_channel) {
            Some(end) => end,
            None => {
                return None;
            },
        };
        if end > self.tiles.len() {
            return None;
        }
        Some(vstd::slice::slice_subrange(self.tiles.as_slice(), start, end))
    }

    /// One tile of one channel, or `None` where there is none.
    pub fn tile(&self, channel: usize, index: usize) -> (tile: Option<T>)
        ensures
            match tile {
                Some(found) => index < self.spec_tiles_per_channel() && channel * self.spec_tiles_per_channel()
                    + self.spec_tiles_per_channel() <= self.spec_tiles().len() && found == self.spec_tiles()[channel
                    * self.spec_tiles_per_channel() + index],
                None => index >= self.spec_tiles_per_channel() || channel * self.spec_tiles_per_channel()
                    + self.spec_tiles_per_channel() > self.spec_tiles().len(),
            },
    {
        match self.channel(channel) {
            Some(tiles) => {
                if index < tiles.len() {
                    Some(tiles[index])
                } else {
                    None
                }
            },
            None => None,
        }
    }
}

/// A complete waveform: every resolution, finest first, for every channel,
/// and the generation of the algorithm that produced it.
#[derive(Debug, Clone, PartialEq)]
pub struct Waveform<T> {
    channels: usize,
    total_frames: u64,
    version: GenerationVersion,
    levels: Vec<WaveformLevel<T>>,
}

impl<T: Copy> Waveform<T> {
    /// Number of channels.
    pub closed spec fn spec_channels(&self) -> usize {
        self.channels
    }

    /// Total frames summarised.
    pub closed spec fn spec_total_frames(&self) -> u64 {
        self.total_frames
    }

    /// The generation the tiles were produced at.
    pub closed spec fn spec_version(&self) -> GenerationVersion {
        self.version
    }

    /// Every resolution, finest first.
    pub closed spec fn spec_levels(&self) -> Seq<WaveformLevel<T>> {
        self.levels@
    }

    /// A waveform of the current generation from its levels.
    pub fn new(channels: usize, total_frames: u64, levels: Vec<WaveformLevel<T>>) -> (waveform: Waveform<T>)
        ensures
            waveform.spec_channels() == channels,
            waveform.spec_total_frames() == total_frames,
            waveform.spec_version() == GenerationVersion(1),
            waveform.spec_levels() == levels@,
    {
        Waveform { channels, total_frames, version: GenerationVersion::current(), levels }
    }

    /// Number of channels.
    pub fn channels(&self) -> (channels: usize)
        ensures
            channels == self.spec_channels(),
    {
        self.channels
    }

    /// Total frames summarised.
    pub fn total_frames(&self) -> (frames: u64)
        ensures
            frames == self.spec_total_frames(),
    {
        self.total_frames
    }

    /// The generation the tiles were produced at.
    pub fn version(&self) -> (version: GenerationVersion)
        ensures
            version == self.spec_version(),
    {
        self.version
    }

    /// Whether the tiles were produced by the current algorithm; any other
    /// generation is regenerated before it is drawn.
    pub fn is_current(&self) -> (current: bool)
        ensures
            current == (self.spec_version().0 == 1),
    {
        self.version.is_current()
    }

    /// Every resolution, finest first.
    pub fn levels(&self) -> (levels: &[WaveformLevel<T>])
        ensures
            levels@ == self.spec_levels(),
    {
        self.levels.as_slice()
    }

    /// The level at an index in the ladder, or `None` past the last.
    pub fn level(&self, index: usize) -> (level: Option<&WaveformLevel<T>>)
        ensures
            index < self.spec_levels().len() ==> level == Some(&self.spec_levels()[index as int]),
            index >= self.spec_levels().len() ==> level is None,
    {
        if index < self.levels.len() {
            Some(&self.levels[index])
        } else {
            None
        }
    }
}

} // verus!
