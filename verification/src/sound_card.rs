//! Frame bookkeeping of a capture/playback session.
//!
//! A session translates domain requests ("capture N milliseconds of C
//! channels") into hardware-buffer-sized transfers. The device handle and
//! its reads and writes live with the caller; everything that decides
//! sizes and shuffles frames is here: the parameters to negotiate, the
//! target frame count of a capture, de-interleaving of each block a read
//! delivers, truncation of the finished channel buffers, and interleaving
//! of channel buffers for playback.

use vstd::prelude::*;
use crate::config::Format;
use crate::config::SoundCardConfig;

verus! {

/// One channel's samples, 1-based channel number attached. Created fresh
/// per capture; owned exclusively by the caller afterwards.
#[derive(Debug, Clone)]
pub struct ChannelData {
    pub channel_num: usize,
    pub channel_data: Vec<i32>,
}

impl ChannelData {
    pub fn new(channel_num: usize, channel_data: Vec<i32>) -> (r: Self)
        ensures
            r.channel_num == channel_num,
            r.channel_data == channel_data,
    {
        Self { channel_num, channel_data }
    }
}

/// A caller logic defect, fatal to the call that raised it; never an
/// environmental condition.
#[derive(Debug, Clone, Copy, PartialEq, Eq, Structural)]
pub enum UsageError {
    ChannelCountMismatch { expected: usize, actual: usize },
}

/// Frames needed to cover the requested duration: fractional frames are
/// truncated, since hardware cannot deliver partial frames.
pub fn target_frames(sampling_rate: usize, milliseconds: usize) -> (r: usize)
    requires
        milliseconds > 0,
        sampling_rate * milliseconds <= usize::MAX,
    ensures
        r == sampling_rate * milliseconds / 1000,
{
    (sampling_rate * milliseconds) / 1000
}

/// The hardware parameters a session asks the device for: the configured
/// values, plus an on-device ring buffer of a small fixed multiple of the
/// period size.
#[derive(Debug, Clone)]
pub struct HardwareRequest {
    pub channels: usize,
    pub format: Format,
    pub rate: usize,
    pub period_size: usize,
    pub buffer_size: usize,
}

/// How many periods the on-device ring buffer holds.
pub const BUFFER_PERIODS: usize = 8;

impl HardwareRequest {
    pub fn from_config(config: &SoundCardConfig, channels: usize) -> (r: Self)
        requires
            channels >= 1,
            config.well_formed(),
            config.period_size * BUFFER_PERIODS <= usize::MAX,
        ensures
            r.channels == channels,
            r.format == config.format,
            r.rate == config.sampling_rate.spec_value(),
            r.period_size == config.period_size,
            r.buffer_size == BUFFER_PERIODS * config.period_size,
    {
        Self {
            channels,
            format: config.format,
            rate: config.sampling_rate.value(),
            period_size: config.period_size,
            buffer_size: config.period_size * BUFFER_PERIODS,
        }
    }
}

/// State of one capture call: the per-channel buffers being accumulated
/// out of interleaved hardware blocks.
pub struct RecordSession {
    pub channels: usize,
    pub target_frames: usize,
    pub bufs: Vec<ChannelData>,
}

impl RecordSession {
    /// One buffer per channel, numbered from 1, all of equal length.
    pub open spec fn well_formed(self) -> bool {
        &&& self.channels >= 1
        &&& self.bufs@.len() == self.channels
        &&& forall|c: int| 0 <= c < self.channels ==> (#[trigger] self.bufs@[c]).channel_num == c + 1
        &&& forall|c: int|
            0 <= c < self.channels ==> (#[trigger] self.bufs@[c]).channel_data@.len()
                == self.bufs@[0].channel_data@.len()
    }

    /// Frames accumulated so far (every channel holds this many samples).
    pub open spec fn frames(self) -> int {
        self.bufs@[0].channel_data@.len() as int
    }

    pub fn new(channels: usize, target_frames: usize) -> (r: Self)
        requires
            channels >= 1,
        ensures
            r.well_formed(),
            r.channels == channels,
            r.target_frames == target_frames,
            r.frames() == 0,
            forall|c: int| 0 <= c < channels ==> (#[trigger] r.bufs@[c]).channel_data@ == Seq::<i32>::empty(),
    {
        let mut bufs: Vec<ChannelData> = Vec::new();
        let mut c: usize = 0;
        while c < channels
            invariant
                c <= channels,
                bufs@.len() == c,
                forall|i: int| 0 <= i < c ==> (#[trigger] bufs@[i]).channel_num == i + 1,
                forall|i: int| 0 <= i < c ==> (#[trigger] bufs@[i]).channel_data@ == Seq::<i32>::empty(),
            decreases channels - c,
        {
            bufs.push(ChannelData { channel_num: c + 1, channel_data: Vec::new() });
            c = c + 1;
        }
        Self { channels, target_frames, bufs }
    }

    pub fn frames_accumulated(&self) -> (r: usize)
        requires
            self.well_formed(),
        ensures
            r == self.frames(),
    {
        self.bufs[0].channel_data.len()
    }

    /// Whether enough frames have arrived to cover the target.
    pub fn is_complete(&self) -> (r: bool)
        requires
            self.well_formed(),
        ensures
            r == (self.frames() >= self.target_frames),
    {
        self.frames_accumulated() >= self.target_frames
    }

    /// De-interleave the first `frames` frames of one hardware block into
    /// the per-channel buffers: frame `k` of channel `c` is
    /// `block[k * channels + c]`.
    pub fn push_block(&mut self, block: &[i32], frames: usize)
        requires
            old(self).well_formed(),
            frames * old(self).channels <= block@.len(),
        ensures
            final(self).well_formed(),
            final(self).channels == old(self).channels,
            final(self).target_frames == old(self).target_frames,
            final(self).frames() == old(self).frames() + frames,
            forall|c: int|
                0 <= c < old(self).channels ==> (#[trigger] final(self).bufs@[c]).channel_data@
                    == old(self).bufs@[c].channel_data@ + Seq::new(
                    frames as nat,
                    |k: int| block@[k * old(self).channels + c],
                ),
    {
        let ghost orig = *self;
        let channels = self.channels;
        let blen: usize = block.len();
        let mut f: usize = 0;
        while f < frames
            invariant
                orig.well_formed(),
                channels == orig.channels,
                frames * channels <= block@.len(),
                block@.len() == blen,
                f <= frames,
                self.channels == orig.channels,
                self.target_frames == orig.target_frames,
                self.bufs@.len() == orig.bufs@.len(),
                forall|c: int| 0 <= c < channels ==> (#[trigger] self.bufs@[c]).channel_num == c + 1,
                forall|c: int|
                    0 <= c < channels ==> (#[trigger] self.bufs@[c]).channel_data@
                        == orig.bufs@[c].channel_data@ + Seq::new(
                        f as nat,
                        |k: int| block@[k * channels + c],
                    ),
            decreases frames - f,
        {
            let mut c: usize = 0;
            while c < channels
                invariant
                    orig.well_formed(),
                    channels == orig.channels,
                    frames * channels <= block@.len(),
                    block@.len() == blen,
                    f < frames,
                    c <= channels,
                    self.channels == orig.channels,
                    self.target_frames == orig.target_frames,
                    self.bufs@.len() == orig.bufs@.len(),
                    forall|i: int| 0 <= i < channels ==> (#[trigger] self.bufs@[i]).channel_num == i + 1,
                    forall|i: int|
                        0 <= i < c ==> (#[trigger] self.bufs@[i]).channel_data@
                            == orig.bufs@[i].channel_data@ + Seq::new(
                            (f + 1) as nat,
                            |k: int| block@[k * channels + i],
                        ),
                    forall|i: int|
                        c <= i < channels ==> (#[trigger] self.bufs@[i]).channel_data@
                            == orig.bufs@[i].channel_data@ + Seq::new(
                            f as nat,
                            |k: int| block@[k * channels + i],
                        ),
                decreases channels - c,
            {
                proof {
                    assert(f * channels + c < frames * channels) by (nonlinear_arith)
                        requires
                            0 <= f,
                            0 <= c,
                            f < frames,
                            c < channels,
                    ;
                }
                let v = block[f * channels + c];
                self.bufs[c].channel_data.push(v);
                proof {
                    let old_part = orig.bufs@[c as int].channel_data@;
                    assert((old_part + Seq::new(f as nat, |k: int| block@[k * channels + c])).push(
                        block@[f as int * channels + c],
                    ) =~= old_part + Seq::new((f + 1) as nat, |k: int| block@[k * channels + c]));
                }
                c = c + 1;
            }
            f = f + 1;
        }
    }

    /// Hand the accumulated channels to the caller, each truncated to
    /// exactly the target frame count: capture delivers complete,
    /// correctly-sized buffers, never padded ones.
    pub fn finish(self) -> (r: Vec<ChannelData>)
        requires
            self.well_formed(),
            self.frames() >= self.target_frames,
        ensures
            r@.len() == self.channels,
            forall|c: int| 0 <= c < self.channels ==> (#[trigger] r@[c]).channel_num == c + 1,
            forall|c: int|
                0 <= c < self.channels ==> (#[trigger] r@[c]).channel_data@
                    == self.bufs@[c].channel_data@.subrange(0, self.target_frames as int),
    {
        let mut bufs = self.bufs;
        let target = self.target_frames;
        let channels = self.channels;
        let ghost orig = bufs@;
        let mut c: usize = 0;
        while c < channels
            invariant
                bufs@.len() == orig.len(),
                channels == orig.len(),
                c <= channels,
                target <= orig[0].channel_data@.len(),
                forall|i: int| 0 <= i < channels ==> (#[trigger] orig[i]).channel_num == i + 1,
                forall|i: int|
                    0 <= i < channels ==> (#[trigger] orig[i]).channel_data@.len()
                        == orig[0].channel_data@.len(),
                forall|i: int| 0 <= i < channels ==> (#[trigger] bufs@[i]).channel_num == i + 1,
                forall|i: int|
                    0 <= i < c ==> (#[trigger] bufs@[i]).channel_data@ == orig[i].channel_data@.subrange(
                        0,
                        target as int,
                    ),
                forall|i: int| c <= i < channels ==> (#[trigger] bufs@[i]) == orig[i],
            decreases channels - c,
        {
            bufs[c].channel_data.truncate(target);
            c = c + 1;
        }
        bufs
    }
}

/// The shortest channel length across the supplied channels: playback
/// interleaves only this common prefix, silently dropping trailing
/// samples of any longer channel.
pub open spec fn spec_min_len(data: Seq<ChannelData>) -> int
    decreases data.len(),
{
    if data.len() == 0 {
        0
    } else if data.len() == 1 {
        data[0].channel_data@.len() as int
    } else {
        let rest = spec_min_len(data.drop_last());
        let last = data.last().channel_data@.len() as int;
        if last < rest {
            last
        } else {
            rest
        }
    }
}

/// The common prefix is no longer than any channel.
pub proof fn lemma_min_len_le(data: Seq<ChannelData>, c: int)
    requires
        0 <= c < data.len(),
    ensures
        0 <= spec_min_len(data) <= data[c].channel_data@.len(),
    decreases data.len(),
{
    if data.len() > 1 {
        if c < data.len() - 1 {
            lemma_min_len_le(data.drop_last(), c);
        } else {
            lemma_min_len_le(data.drop_last(), 0);
        }
    }
}

/// Build the interleaved playback buffer for the supplied channels, or
/// report the usage error when the channel count does not match the
/// session's configured count — before anything is handed to the
/// hardware.
pub fn plan_playback(channels: usize, data: &Vec<ChannelData>) -> (r: Result<Vec<i32>, UsageError>)
    ensures
        data@.len() == channels <==> r is Ok,
        r matches Err(e) ==> e == (UsageError::ChannelCountMismatch {
            expected: channels,
            actual: data@.len() as usize,
        }),
        r matches Ok(buf) ==> {
            &&& buf@.len() == spec_min_len(data@) * channels
            &&& forall|f: int, c: int|
                0 <= f < spec_min_len(data@) && 0 <= c < channels ==> buf@[f * channels + c]
                    == (#[trigger] data@[c].channel_data@[f])
        },
{
    if data.len() != channels {
        return Err(UsageError::ChannelCountMismatch { expected: channels, actual: data.len() });
    }
    if channels == 0 {
        let buf: Vec<i32> = Vec::new();
        return Ok(buf);
    }
    let mut min_len: usize = data[0].channel_data.len();
    let mut i: usize = 1;
    while i < channels
        invariant
            channels == data@.len(),
            0 < i <= channels,
            min_len == spec_min_len(data@.subrange(0, i as int)),
        decreases channels - i,
    {
        proof {
            assert(data@.subrange(0, i + 1).drop_last() =~= data@.subrange(0, i as int));
            assert(data@.subrange(0, i + 1).last() == data@[i as int]);
        }
        let l = data[i].channel_data.len();
        if l < min_len {
            min_len = l;
        }
        i = i + 1;
    }
    proof {
        assert(data@.subrange(0, channels as int) =~= data@);
    }
    let ghost m = spec_min_len(data@);
    let mut buf: Vec<i32> = Vec::new();
    let mut f: usize = 0;
    while f < min_len
        invariant
            channels == data@.len(),
            0 < channels,
            m == spec_min_len(data@),
            min_len == m,
            f <= min_len,
            buf@.len() == f * channels,
            forall|f2: int, c2: int|
                0 <= f2 < f && 0 <= c2 < channels ==> buf@[f2 * channels + c2]
                    == (#[trigger] data@[c2].channel_data@[f2]),
        decreases min_len - f,
    {
        let mut c: usize = 0;
        while c < channels
            invariant
                channels == data@.len(),
                0 < channels,
                m == spec_min_len(data@),
                min_len == m,
                f < min_len,
                c <= channels,
                buf@.len() == f * channels + c,
                forall|f2: int, c2: int|
                    0 <= f2 < f && 0 <= c2 < channels ==> buf@[f2 * channels + c2]
                        == (#[trigger] data@[c2].channel_data@[f2]),
                forall|c2: int|
                    0 <= c2 < c ==> buf@[f as int * channels + c2]
                        == (#[trigger] data@[c2].channel_data@[f as int]),
            decreases channels - c,
        {
            proof {
                lemma_min_len_le(data@, c as int);
            }
            let ghost pre = buf@;
            buf.push(data[c].channel_data[f]);
            proof {
                assert forall|f2: int, c2: int|
                    0 <= f2 < f && 0 <= c2 < channels implies buf@[f2 * channels + c2]
                    == (#[trigger] data@[c2].channel_data@[f2]) by {
                    assert(f2 * channels + c2 < f as int * channels) by (nonlinear_arith)
                        requires
                            0 <= f2 < f,
                            0 <= c2 < channels,
                    ;
                    assert(pre[f2 * channels + c2] == data@[c2].channel_data@[f2]);
                    assert(buf@[f2 * channels + c2] == pre[f2 * channels + c2]);
                }
                assert forall|c2: int|
                    0 <= c2 < c + 1 implies buf@[f as int * channels + c2]
                    == (#[trigger] data@[c2].channel_data@[f as int]) by {
                    if c2 < c {
                        assert(pre[f as int * channels + c2] == data@[c2].channel_data@[f as int]);
                        assert(buf@[f as int * channels + c2] == pre[f as int * channels + c2]);
                    } else {
                        assert(buf@[f as int * channels + c] == pre.push(
                            data@[c as int].channel_data@[f as int],
                        ).last());
                    }
                }
            }
            c = c + 1;
        }
        proof {
            assert(f as int * channels + channels == (f + 1) * channels) by (nonlinear_arith);
            assert forall|f2: int, c2: int|
                0 <= f2 < f + 1 && 0 <= c2 < channels implies buf@[f2 * channels + c2]
                == (#[trigger] data@[c2].channel_data@[f2]) by {
                if f2 == f {
                    assert(buf@[f as int * channels + c2] == data@[c2].channel_data@[f as int]);
                }
            }
        }
        f = f + 1;
    }
    proof {
        assert(buf@.len() == m * channels);
    }
    Ok(buf)
}

} // verus!
