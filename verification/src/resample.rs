//! Where resampled values come from: which source positions each of them lies between.

use vstd::arithmetic::div_mod::{
    lemma_div_is_ordered, lemma_div_pos_is_pos, lemma_fundamental_div_mod, lemma_fundamental_div_mod_converse,
    lemma_multiply_divide_lt,
};
use vstd::prelude::*;

verus! {

/// Where one output sample comes from: the two input samples that it lies between.
#[derive(Clone, Copy, Debug, PartialEq, Eq, Structural)]
pub struct SampleTap {
    /// The output frame that the sample belongs to.
    pub frame: usize,
    /// The input frame at or before the output frame's position.
    pub base: usize,
    /// The index of the input sample in frame `base`.
    pub left: usize,
    /// The index of the input sample in the frame behind, or in the last one.
    pub right: usize,
}

/// How many frames `frames` become when the rate changes: as many as fit, but one at least.
/// None fit into a rate of zero, whatever the rate was before.
pub open spec fn resampled_frames(frames: int, from_rate: int, to_rate: int) -> int {
    let fit = frames * to_rate / from_rate;
    if to_rate == 0 || fit < 1 {
        1
    } else {
        fit
    }
}

/// The input frame at or before an output frame's position.
pub open spec fn base_frame(frame: int, from_rate: int, to_rate: int) -> int {
    if to_rate == 0 {
        0
    } else {
        frame * from_rate / to_rate
    }
}

/// The smaller of two numbers.
pub open spec fn lesser(a: int, b: int) -> int {
    if a < b {
        a
    } else {
        b
    }
}

/// Where a sample of an output frame comes from. Channels that the input lacks are taken from
/// its last one.
pub open spec fn tap(
    frames: int,
    from_rate: int,
    from_channels: int,
    to_rate: int,
    frame: int,
    channel: int,
) -> SampleTap {
    let base = base_frame(frame, from_rate, to_rate);
    let next = lesser(base + 1, frames - 1);
    let source = lesser(channel, from_channels - 1);
    SampleTap {
        frame: frame as usize,
        base: base as usize,
        left: (base * from_channels + source) as usize,
        right: (next * from_channels + source) as usize,
    }
}

/// Where the samples of the whole output come from, frame by frame and channel by channel.
pub open spec fn taps(
    input_len: int,
    from_rate: int,
    from_channels: int,
    to_rate: int,
    to_channels: int,
) -> Seq<SampleTap> {
    if input_len == 0 || input_len / from_channels == 0 {
        Seq::empty()
    } else {
        let frames = input_len / from_channels;
        Seq::new(
            (resampled_frames(frames, from_rate, to_rate) * to_channels) as nat,
            |i: int|
                tap(
                    frames,
                    from_rate,
                    from_channels,
                    to_rate,
                    i / to_channels,
                    i % to_channels,
                ),
        )
    }
}

/// An output frame lies at or behind an input frame that is there.
proof fn lemma_base_is_there(frames: int, from_rate: int, to_rate: int, frame: int)
    requires
        frames > 0,
        from_rate > 0 || to_rate == 0,
        to_rate >= 0,
        0 <= frame < resampled_frames(frames, from_rate, to_rate),
    ensures
        0 <= base_frame(frame, from_rate, to_rate) < frames,
{
    let fit = frames * to_rate / from_rate;
    if to_rate > 0 {
        if fit >= 1 {
            lemma_fundamental_div_mod(frames * to_rate, from_rate);
            assert(frame * from_rate < frames * to_rate) by (nonlinear_arith)
                requires
                    frame + 1 <= fit,
                    from_rate > 0,
                    from_rate * fit <= frames * to_rate,
            ;
        } else {
            assert(frame == 0);
            assert(0 < frames * to_rate) by (nonlinear_arith)
                requires
                    frames > 0,
                    to_rate > 0,
            ;
        }
        assert(0 <= frame * from_rate) by (nonlinear_arith)
            requires
                0 <= frame,
                from_rate > 0,
        ;
        assert(frames * to_rate == to_rate * frames) by (nonlinear_arith);
        lemma_multiply_divide_lt(frame * from_rate, to_rate, frames);
        lemma_div_pos_is_pos(frame * from_rate, to_rate);
    }
}

/// The samples of a frame that is there are there.
proof fn lemma_sample_is_there(
    input_len: int,
    from_channels: int,
    frames: int,
    frame: int,
    source: int,
)
    requires
        from_channels > 0,
        frames == input_len / from_channels,
        0 <= frame < frames,
        0 <= source < from_channels,
    ensures
        0 <= frame * from_channels + source < input_len,
{
    lemma_fundamental_div_mod(input_len, from_channels);
    assert(0 <= frame * from_channels && frame * from_channels + from_channels <= frames
        * from_channels) by (nonlinear_arith)
        requires
            0 <= frame,
            frame + 1 <= frames,
            from_channels > 0,
    ;
    assert(from_channels * frames == frames * from_channels) by (nonlinear_arith);
}

/// Every output sample comes from input samples that are there.
pub proof fn taps_are_inside_the_input(
    input_len: int,
    from_rate: int,
    from_channels: int,
    to_rate: int,
    to_channels: int,
)
    requires
        0 <= input_len <= usize::MAX,
        from_rate > 0 || to_rate == 0,
        from_channels > 0,
        to_rate >= 0,
        to_channels >= 0,
    ensures
        forall|i: int|
            0 <= i < taps(input_len, from_rate, from_channels, to_rate, to_channels).len() ==> {
                let tap = #[trigger] taps(
                    input_len,
                    from_rate,
                    from_channels,
                    to_rate,
                    to_channels,
                )[i];
                tap.left < input_len && tap.right < input_len
            },
{
    let all = taps(input_len, from_rate, from_channels, to_rate, to_channels);
    let frames = input_len / from_channels;
    assert forall|i: int| 0 <= i < all.len() implies (#[trigger] all[i]).left < input_len
        && all[i].right < input_len by {
        let out = resampled_frames(frames, from_rate, to_rate);
        lemma_frame_of_index(out, to_channels, i);
        lemma_div_pos_is_pos(input_len, from_channels);
        lemma_tap_is_inside(
            input_len,
            from_rate,
            from_channels,
            to_rate,
            i / to_channels,
            i % to_channels,
        );
    }
}

proof fn lemma_frame_of_index(frames: int, channels: int, i: int)
    requires
        0 <= i < frames * channels,
        frames >= 0,
        channels >= 0,
    ensures
        channels > 0,
        0 <= i / channels < frames,
        0 <= i % channels < channels,
{
    assert(channels > 0) by (nonlinear_arith)
        requires
            0 <= i < frames * channels,
            channels >= 0,
    ;
    assert(frames * channels == channels * frames) by (nonlinear_arith);
    lemma_multiply_divide_lt(i, channels, frames);
    lemma_div_pos_is_pos(i, channels);
}

proof fn lemma_tap_is_inside(
    input_len: int,
    from_rate: int,
    from_channels: int,
    to_rate: int,
    frame: int,
    channel: int,
)
    requires
        0 < input_len <= usize::MAX,
        from_rate > 0 || to_rate == 0,
        from_channels > 0,
        to_rate >= 0,
        input_len / from_channels > 0,
        0 <= frame < resampled_frames(input_len / from_channels, from_rate, to_rate),
        0 <= channel,
    ensures
        ({
            let frames = input_len / from_channels;
            let base = base_frame(frame, from_rate, to_rate);
            let next = lesser(base + 1, frames - 1);
            let source = lesser(channel, from_channels - 1);
            &&& 0 <= base < frames
            &&& 0 <= next < frames
            &&& 0 <= base * from_channels + source < input_len
            &&& 0 <= next * from_channels + source < input_len
        }),
{
    let frames = input_len / from_channels;
    lemma_base_is_there(frames, from_rate, to_rate, frame);
    let base = base_frame(frame, from_rate, to_rate);
    let next = lesser(base + 1, frames - 1);
    let source = lesser(channel, from_channels - 1);
    lemma_sample_is_there(input_len, from_channels, frames, base, source);
    lemma_sample_is_there(input_len, from_channels, frames, next, source);
}

/// Where the samples come from when interleaved input is brought to another rate and another
/// number of channels.
pub fn resample_interleaved(
    input_len: usize,
    src_rate: u32,
    src_channels: u16,
    dst_rate: u32,
    dst_channels: u16,
) -> (plan: Vec<SampleTap>)
    requires
        input_len > 0 ==> src_channels > 0,
        input_len > 0 && input_len / (src_channels as usize) > 0 ==> {
            &&& src_rate > 0 || dst_rate == 0
            &&& resampled_frames(
                input_len as int / src_channels as int,
                src_rate as int,
                dst_rate as int,
            ) <= usize::MAX
            &&& resampled_frames(
                input_len as int / src_channels as int,
                src_rate as int,
                dst_rate as int,
            ) * dst_channels <= usize::MAX
        },
    ensures
        plan@ == taps(
            input_len as int,
            src_rate as int,
            src_channels as int,
            dst_rate as int,
            dst_channels as int,
        ),
        forall|i: int|
            #![trigger plan@[i]]
            0 <= i < plan@.len() ==> plan@[i].frame * dst_channels <= i < (plan@[i].frame + 1)
                * dst_channels,
        src_rate > 0 && dst_rate > 0 ==> forall|i: int|
            #![trigger plan@[i]]
            0 <= i < plan@.len() ==> plan@[i].base * dst_rate <= plan@[i].frame * src_rate < (
            plan@[i].base + 1) * dst_rate,
        src_rate > 0 && dst_rate > 0 && dst_channels > 0 && input_len >= src_channels
            && input_len > 0 ==> {
            let frames = input_len as int / src_channels as int;
            let count = plan@.len() as int / dst_channels as int;
            &&& count * dst_channels == plan@.len()
            &&& count >= 1
            &&& count * src_rate <= frames * dst_rate || count == 1
            &&& frames * dst_rate < (count + 1) * src_rate
        },
{
    let mut plan: Vec<SampleTap> = Vec::new();
    if input_len == 0 {
        return plan;
    }
    let src_frames: usize = input_len / src_channels as usize;
    if src_frames == 0 {
        proof {
            if input_len >= src_channels {
                lemma_div_is_ordered(src_channels as int, input_len as int, src_channels as int);
                lemma_fundamental_div_mod_converse(
                    src_channels as int,
                    src_channels as int,
                    1,
                    0,
                );
            }
        }
        return plan;
    }
    let ghost frames = src_frames as int;
    let ghost all = taps(
        input_len as int,
        src_rate as int,
        src_channels as int,
        dst_rate as int,
        dst_channels as int,
    );
    assert(src_frames * dst_rate <= 0xffff_ffff_ffff_ffff * 0xffff_ffff && src_frames * dst_rate
        >= 0) by (nonlinear_arith)
        requires
            0 <= src_frames <= 0xffff_ffff_ffff_ffff,
            0 <= dst_rate <= 0xffff_ffff,
    ;
    let fit: u128 = if dst_rate == 0 {
        0
    } else {
        src_frames as u128 * dst_rate as u128 / src_rate as u128
    };
    let dst_frames: usize = if fit < 1 {
        1
    } else {
        fit as usize
    };
    assert(dst_frames == resampled_frames(frames, src_rate as int, dst_rate as int));
    let mut frame: usize = 0;
    assert(frame * dst_channels == 0);
    assert(all.take(0) =~= Seq::<SampleTap>::empty());
    while frame < dst_frames
        invariant
            frame <= dst_frames,
            frames == src_frames,
            frames == input_len as int / src_channels as int,
            0 < frames <= input_len,
            src_channels > 0,
            src_rate > 0 || dst_rate == 0,
            dst_frames == resampled_frames(frames, src_rate as int, dst_rate as int),
            all == taps(
                input_len as int,
                src_rate as int,
                src_channels as int,
                dst_rate as int,
                dst_channels as int,
            ),
            all.len() == dst_frames * dst_channels,
            plan@ == all.take(frame * dst_channels),
            0 <= frame * dst_channels <= dst_frames * dst_channels,
        decreases dst_frames - frame,
    {
        assert(0 <= frame * src_rate <= 0xffff_ffff_ffff_ffff * 0xffff_ffff) by (nonlinear_arith)
            requires
                0 <= frame <= 0xffff_ffff_ffff_ffff,
                0 <= src_rate <= 0xffff_ffff,
        ;
        proof {
            lemma_tap_is_inside(
                input_len as int,
                src_rate as int,
                src_channels as int,
                dst_rate as int,
                frame as int,
                0,
            );
        }
        let base: usize = if dst_rate == 0 {
            0
        } else {
            (frame as u128 * src_rate as u128 / dst_rate as u128) as usize
        };
        assert(base == base_frame(frame as int, src_rate as int, dst_rate as int));
        let next: usize = if base + 1 < src_frames {
            base + 1
        } else {
            src_frames - 1
        };
        assert(frame * dst_channels + dst_channels <= dst_frames * dst_channels) by (
            nonlinear_arith)
            requires
                frame + 1 <= dst_frames,
                dst_channels >= 0,
        ;
        let mut channel: u16 = 0;
        while channel < dst_channels
            invariant
                channel <= dst_channels,
                frame < dst_frames,
                frames == src_frames,
                frames == input_len as int / src_channels as int,
                0 < frames <= input_len,
                src_channels > 0,
                src_rate > 0 || dst_rate == 0,
                dst_frames == resampled_frames(frames, src_rate as int, dst_rate as int),
                all == taps(
                    input_len as int,
                    src_rate as int,
                    src_channels as int,
                    dst_rate as int,
                    dst_channels as int,
                ),
                all.len() == dst_frames * dst_channels,
                0 <= frame * dst_channels,
                frame * dst_channels + dst_channels <= dst_frames * dst_channels,
                base == base_frame(frame as int, src_rate as int, dst_rate as int),
                next == lesser(base + 1, frames - 1),
                plan@ == all.take(frame * dst_channels + channel),
            decreases dst_channels - channel,
        {
            let source: u16 = if channel < src_channels - 1 {
                channel
            } else {
                src_channels - 1
            };
            let ghost i = frame * dst_channels + channel;
            proof {
                lemma_tap_is_inside(
                    input_len as int,
                    src_rate as int,
                    src_channels as int,
                    dst_rate as int,
                    frame as int,
                    channel as int,
                );
                lemma_fundamental_div_mod_converse(
                    i,
                    dst_channels as int,
                    frame as int,
                    channel as int,
                );
            }
            let left: usize = base * src_channels as usize + source as usize;
            let right: usize = next * src_channels as usize + source as usize;
            plan.push(SampleTap { frame, base, left, right });
            assert(all[i] == plan@.last());
            assert(all.take(i).push(all[i]) =~= all.take(i + 1));
            channel = channel + 1;
        }
        assert((frame + 1) * dst_channels == frame * dst_channels + dst_channels)
            by (nonlinear_arith);
        frame = frame + 1;
    }
    assert(all.take(dst_frames * dst_channels) =~= all);
    proof {
        lemma_fundamental_div_mod(input_len as int, src_channels as int);
        assert(src_channels * frames == frames * src_channels) by (nonlinear_arith);
        assert((frames + 1) * src_channels == frames * src_channels + src_channels)
            by (nonlinear_arith);
        assert forall|i: int| #![trigger plan@[i]] 0 <= i < plan@.len() implies plan@[i].frame
            * dst_channels <= i < (plan@[i].frame + 1) * dst_channels && (src_rate > 0 && dst_rate
            > 0 ==> plan@[i].base * dst_rate <= plan@[i].frame * src_rate < (plan@[i].base + 1)
            * dst_rate) by {
            lemma_frame_of_index(dst_frames as int, dst_channels as int, i);
            let f = i / dst_channels as int;
            lemma_fundamental_div_mod(i, dst_channels as int);
            assert(dst_channels * f == f * dst_channels) by (nonlinear_arith);
            assert((f + 1) * dst_channels == f * dst_channels + dst_channels) by (nonlinear_arith);
            lemma_tap_is_inside(
                input_len as int,
                src_rate as int,
                src_channels as int,
                dst_rate as int,
                f,
                0,
            );
            assert(frames <= input_len);
            if src_rate > 0 && dst_rate > 0 {
                lemma_base_keeps_time(f, src_rate as int, dst_rate as int);
            }
        }
        if src_rate > 0 && dst_rate > 0 {
            lemma_frames_keep_time(frames, src_rate as int, dst_rate as int);
        }
        if dst_channels > 0 {
            lemma_fundamental_div_mod_converse(
                plan@.len() as int,
                dst_channels as int,
                dst_frames as int,
                0,
            );
        }
    }
    plan
}

proof fn lemma_frames_keep_time(frames: int, from_rate: int, to_rate: int)
    requires
        frames > 0,
        from_rate > 0,
        to_rate > 0,
    ensures
        ({
            let count = resampled_frames(frames, from_rate, to_rate);
            &&& count >= 1
            &&& count * from_rate <= frames * to_rate || count == 1
            &&& frames * to_rate < (count + 1) * from_rate
        }),
{
    let fit = frames * to_rate / from_rate;
    lemma_fundamental_div_mod(frames * to_rate, from_rate);
    assert(from_rate * fit == fit * from_rate) by (nonlinear_arith);
    assert((fit + 1) * from_rate == fit * from_rate + from_rate) by (nonlinear_arith);
    if fit < 1 {
        assert(frames * to_rate < 2 * from_rate) by (nonlinear_arith)
            requires
                frames * to_rate < (fit + 1) * from_rate,
                fit < 1,
                from_rate > 0,
        ;
    }
}

proof fn lemma_base_keeps_time(frame: int, from_rate: int, to_rate: int)
    requires
        from_rate > 0,
        to_rate > 0,
    ensures
        ({
            let base = base_frame(frame, from_rate, to_rate);
            base * to_rate <= frame * from_rate < (base + 1) * to_rate
        }),
{
    let base = frame * from_rate / to_rate;
    lemma_fundamental_div_mod(frame * from_rate, to_rate);
    assert(to_rate * base == base * to_rate) by (nonlinear_arith);
    assert((base + 1) * to_rate == base * to_rate + to_rate) by (nonlinear_arith);
}

/// Two counts of frames that last as long as the input, to the frame, are the same.
proof fn lemma_count_is_unique(a: int, b: int, length: int, rate: int)
    requires
        rate > 0,
        a >= 1,
        b >= 1,
        a * rate <= length || a == 1,
        b * rate <= length || b == 1,
        length < (a + 1) * rate,
        length < (b + 1) * rate,
    ensures
        a == b,
{
    if a < b {
        assert((a + 1) * rate <= b * rate) by (nonlinear_arith)
            requires
                a + 1 <= b,
                rate > 0,
        ;
    }
    if b < a {
        assert((b + 1) * rate <= a * rate) by (nonlinear_arith)
            requires
                b + 1 <= a,
                rate > 0,
        ;
    }
}

/// The output lasts as long as the input, to the frame, and every output sample comes from the
/// moment it is heard at. `frames` is how many whole frames the input has, and `count` how many
/// the output has: as many as its rate fits into the input's time, but one at least. Output frame
/// `frame` lies at or behind input frame `base` and before the next. A channel comes from the
/// channel of the same number, and from the last one where the input has no such channel.
pub proof fn plans_keep_time(
    input_len: int,
    frames: int,
    from_rate: int,
    from_channels: int,
    count: int,
    to_rate: int,
    to_channels: int,
    frame: int,
    channel: int,
)
    requires
        0 <= input_len <= usize::MAX,
        from_rate > 0,
        from_channels > 0,
        to_rate > 0,
        frames >= 1,
        frames * from_channels <= input_len < (frames + 1) * from_channels,
        1 <= count <= usize::MAX,
        count * from_rate <= frames * to_rate || count == 1,
        frames * to_rate < (count + 1) * from_rate,
        0 <= frame < count,
        0 <= channel < to_channels,
    ensures
        ({
            let plan = taps(input_len, from_rate, from_channels, to_rate, to_channels);
            let tap = plan[frame * to_channels + channel];
            &&& plan.len() == count * to_channels
            &&& 0 <= frame * to_channels + channel < plan.len()
            &&& tap.frame == frame
            &&& tap.base * to_rate <= frame * from_rate < (tap.base + 1) * to_rate
            &&& channel < from_channels ==> tap.left == tap.base * from_channels + channel
            &&& channel >= from_channels ==> tap.left == tap.base * from_channels + from_channels
                - 1
            &&& tap.base + 1 < frames ==> tap.right == tap.left + from_channels
            &&& tap.base + 1 >= frames ==> tap.right == tap.left && tap.base == frames - 1
        }),
{
    assert((frames + 1) * from_channels == frames * from_channels + from_channels)
        by (nonlinear_arith);
    lemma_fundamental_div_mod_converse(
        input_len,
        from_channels,
        frames,
        input_len - frames * from_channels,
    );
    assert(input_len >= 1) by (nonlinear_arith)
        requires
            frames * from_channels <= input_len,
            frames >= 1,
            from_channels > 0,
    ;
    lemma_frames_keep_time(frames, from_rate, to_rate);
    lemma_count_is_unique(
        count,
        resampled_frames(frames, from_rate, to_rate),
        frames * to_rate,
        from_rate,
    );
    let i = frame * to_channels + channel;
    assert(0 <= i < count * to_channels) by (nonlinear_arith)
        requires
            i == frame * to_channels + channel,
            0 <= frame,
            frame + 1 <= count,
            0 <= channel < to_channels,
    ;
    lemma_fundamental_div_mod_converse(i, to_channels, frame, channel);
    lemma_base_is_there(frames, from_rate, to_rate, frame);
    lemma_base_keeps_time(frame, from_rate, to_rate);
    lemma_tap_is_inside(input_len, from_rate, from_channels, to_rate, frame, channel);
    let base = base_frame(frame, from_rate, to_rate);
    assert((base + 1) * from_channels == base * from_channels + from_channels) by (nonlinear_arith);
    assert(frames <= input_len) by (nonlinear_arith)
        requires
            frames * from_channels <= input_len,
            frames >= 1,
            from_channels > 0,
    ;
}

/// Input without a whole frame gives no output, and a rate of zero one frame, which comes from
/// the first.
pub proof fn plans_of_little_are_short(
    input_len: int,
    from_rate: int,
    from_channels: int,
    to_rate: int,
    to_channels: int,
)
    requires
        0 <= input_len <= usize::MAX,
        from_channels > 0,
        to_channels >= 0,
    ensures
        input_len < from_channels ==> taps(
            input_len,
            from_rate,
            from_channels,
            to_rate,
            to_channels,
        ).len() == 0,
        input_len >= from_channels && to_rate == 0 ==> {
            let plan = taps(input_len, from_rate, from_channels, to_rate, to_channels);
            &&& plan.len() == to_channels
            &&& forall|i: int|
                0 <= i < plan.len() ==> (#[trigger] plan[i]).frame == 0 && plan[i].base == 0
            &&& forall|i: int|
                0 <= i < plan.len() && i < from_channels ==> (#[trigger] plan[i]).left == i
            &&& forall|i: int|
                0 <= i < plan.len() && i >= from_channels ==> (#[trigger] plan[i]).left
                    == from_channels - 1
        },
{
    lemma_fundamental_div_mod(input_len, from_channels);
    let frames = input_len / from_channels;
    if input_len < from_channels {
        lemma_fundamental_div_mod_converse(input_len, from_channels, 0, input_len);
    } else {
        assert(frames >= 1) by (nonlinear_arith)
            requires
                input_len == from_channels * frames + input_len % from_channels,
                input_len % from_channels < from_channels,
                input_len >= from_channels,
                from_channels > 0,
        ;
        if to_rate == 0 {
            let plan = taps(input_len, from_rate, from_channels, to_rate, to_channels);
            assert forall|i: int| 0 <= i < plan.len() implies (#[trigger] plan[i]).frame == 0
                && plan[i].base == 0 && plan[i].left == (if i < from_channels {
                i
            } else {
                from_channels - 1
            }) by {
                lemma_frame_of_index(1, to_channels, i);
                lemma_fundamental_div_mod_converse(i, to_channels, 0, i);
                assert(0 * from_channels == 0) by (nonlinear_arith);
            }
        }
    }
}

/// Where the rate and the channels stay the same, every sample of a whole frame is taken from its
/// own place, and samples behind the last whole frame are left out.
pub proof fn same_rate_keeps_every_sample(input_len: int, rate: int, channels: int)
    requires
        0 <= input_len <= usize::MAX,
        rate > 0,
        channels > 0,
    ensures
        taps(input_len, rate, channels, rate, channels).len() == input_len / channels * channels,
        forall|i: int|
            0 <= i < input_len / channels * channels ==> (#[trigger] taps(
                input_len,
                rate,
                channels,
                rate,
                channels,
            )[i]).left == i,
{
    let frames = input_len / channels;
    let all = taps(input_len, rate, channels, rate, channels);
    lemma_fundamental_div_mod(input_len, channels);
    lemma_div_pos_is_pos(input_len, channels);
    assert(channels * frames == frames * channels) by (nonlinear_arith);
    if frames > 0 {
        lemma_fundamental_div_mod_converse(frames * rate, rate, frames, 0);
        assert(resampled_frames(frames, rate, rate) == frames);
        assert(0 < frames * channels) by (nonlinear_arith)
            requires
                frames > 0,
                channels > 0,
        ;
        assert forall|i: int| 0 <= i < frames * channels implies (#[trigger] all[i]).left == i by {
            let frame = i / channels;
            lemma_fundamental_div_mod(i, channels);
            assert(channels * frame == frame * channels) by (nonlinear_arith);
            lemma_frame_of_index(frames, channels, i);
            lemma_fundamental_div_mod_converse(frame * rate, rate, frame, 0);
            assert(base_frame(frame, rate, rate) == frame);
        }
    } else {
        assert(frames * channels == 0) by (nonlinear_arith)
            requires
                frames == 0,
        ;
    }
}

/// Later output frames never come from earlier input frames.
pub proof fn frames_stay_in_order(earlier: int, later: int, from_rate: int, to_rate: int)
    requires
        0 <= earlier <= later,
        from_rate >= 0,
        to_rate >= 0,
    ensures
        base_frame(earlier, from_rate, to_rate) <= base_frame(later, from_rate, to_rate),
{
    if to_rate > 0 {
        assert(earlier * from_rate <= later * from_rate) by (nonlinear_arith)
            requires
                earlier <= later,
                from_rate >= 0,
        ;
        lemma_div_is_ordered(earlier * from_rate, later * from_rate, to_rate);
    }
}

} // verus!
