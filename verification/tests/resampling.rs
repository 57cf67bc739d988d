use srtui::resample::{resample_interleaved, SampleTap};

#[test]
fn nothing_comes_from_nothing() {
    assert!(resample_interleaved(0, 44100, 2, 48000, 2).is_empty());
    assert!(resample_interleaved(0, 0, 0, 0, 0).is_empty());
    assert!(resample_interleaved(1, 44100, 2, 48000, 2).is_empty());
    assert!(resample_interleaved(4, 44100, 2, 48000, 0).is_empty());
}

#[test]
fn the_same_rate_keeps_every_sample() {
    let plan = resample_interleaved(2304, 44100, 2, 44100, 2);
    let lefts: Vec<usize> = plan.iter().map(|tap| tap.left).collect();
    assert_eq!(lefts, (0..2304).collect::<Vec<_>>());
    assert_eq!(plan[2303], SampleTap { frame: 1151, base: 1151, left: 2303, right: 2303 });
}

#[test]
fn one_channel_serves_for_two() {
    assert_eq!(
        resample_interleaved(2, 1, 1, 2, 2),
        [
            SampleTap { frame: 0, base: 0, left: 0, right: 1 },
            SampleTap { frame: 0, base: 0, left: 0, right: 1 },
            SampleTap { frame: 1, base: 0, left: 0, right: 1 },
            SampleTap { frame: 1, base: 0, left: 0, right: 1 },
            SampleTap { frame: 2, base: 1, left: 1, right: 1 },
            SampleTap { frame: 2, base: 1, left: 1, right: 1 },
            SampleTap { frame: 3, base: 1, left: 1, right: 1 },
            SampleTap { frame: 3, base: 1, left: 1, right: 1 },
        ]
    );
}

#[test]
fn there_is_always_a_frame() {
    assert_eq!(
        resample_interleaved(2, 48000, 2, 1, 1),
        [SampleTap { frame: 0, base: 0, left: 0, right: 0 }]
    );
    assert_eq!(
        resample_interleaved(4, 48000, 2, 0, 1),
        [SampleTap { frame: 0, base: 0, left: 0, right: 2 }]
    );
    assert_eq!(
        resample_interleaved(4, 0, 2, 0, 1),
        [SampleTap { frame: 0, base: 0, left: 0, right: 2 }]
    );
    assert_eq!((2.0f64 * 0.0 / 0.0).max(1.0) as usize, 1);
}

#[test]
fn positions_are_those_computed_in_floating_point() {
    for (src, dst) in [(44100u32, 48000u32), (48000, 44100), (22050, 96000), (32000, 11025), (7, 3)] {
        for channels in [1u16, 2] {
            let frames = 1152usize;
            let plan = resample_interleaved(frames * channels as usize, src, channels, dst, 2);
            let wanted = ((frames as f64 * dst as f64) / src as f64).max(1.0) as usize;
            assert_eq!(plan.len(), wanted * 2);
            for (i, tap) in plan.iter().enumerate() {
                let base = (tap.frame as f64 * src as f64 / dst as f64).floor() as usize;
                let next = (base + 1).min(frames - 1);
                let channel = (i % 2).min(channels as usize - 1);
                assert_eq!(tap.frame, i / 2);
                assert_eq!(tap.base, base);
                assert_eq!(tap.left, base * channels as usize + channel);
                assert_eq!(tap.right, next * channels as usize + channel);
                assert!(tap.right < frames * channels as usize);
                assert!(i < 2 || plan[i - 2].base <= tap.base);
            }
        }
    }
}

#[test]
fn the_same_rate_leaves_out_what_is_no_whole_frame() {
    for (input_len, whole) in [(0usize, 0usize), (1, 0), (2, 2), (7, 6), (2305, 2304)] {
        let plan = resample_interleaved(input_len, 48000, 2, 48000, 2);
        let lefts: Vec<usize> = plan.iter().map(|tap| tap.left).collect();
        assert_eq!(lefts, (0..whole).collect::<Vec<_>>());
    }
}
