use ratatui::layout::{Constraint, Direction, Layout, Rect};
use srtui::engine::AudioSnapshot;
use srtui::panels::{buffer_title, gauge_seconds, help_lines, inside_border, now_playing_lines};
use srtui::panes::{divide_screen, place, Area, Panes};
use srtui::recording::RecordingFormat;

fn snapshot() -> AudioSnapshot<f32> {
    AudioSnapshot {
        volume: 0.8,
        paused: false,
        bars: vec![0; 64],
        status: "Streaming".to_string(),
        now_playing: "P1".to_string(),
        buffered_seconds: 100,
        delay_seconds: 20,
        recording_requested: false,
        recording_active: false,
        recording_path: String::new(),
        recording_format: RecordingFormat::Mp3,
        cava_active: false,
    }
}

fn area(rect: Rect) -> Area {
    Area { x: rect.x, y: rect.y, width: rect.width, height: rect.height }
}

#[test]
fn what_is_playing_is_told() {
    assert_eq!(
        now_playing_lines(&snapshot(), "tokyo_night", " 80%"),
        [
            "P1",
            "Status: Streaming",
            "Volume:  80%",
            "Theme: tokyo_night",
            "Format: mp3",
            "Recording: off",
            "Visualizer: internal fallback",
        ]
    );
}

#[test]
fn pause_recording_and_monitor_are_told() {
    let mut shown = snapshot();
    shown.paused = true;
    shown.recording_requested = true;
    shown.recording_format = RecordingFormat::Ogg;
    shown.cava_active = true;
    let lines = now_playing_lines(&shown, "t", "100%");
    assert_eq!(lines[1], "Status: Paused");
    assert_eq!(lines[4], "Format: ogg");
    assert_eq!(lines[5], "Recording: arming");
    assert_eq!(lines[6], "Visualizer: cava");
    shown.recording_active = true;
    shown.recording_path = "/music/P1-1.ogg".to_string();
    assert_eq!(now_playing_lines(&shown, "t", "100%")[5], "Recording: /music/P1-1.ogg");
}

#[test]
fn the_window_has_a_title_and_a_gauge() {
    assert_eq!(buffer_title(20, 180), "Buffer  live-20s / stored 180s");
    for delay in [0, 1, 179, 180, 181, u64::MAX] {
        let ratio = (delay as f64 / 180.0).clamp(0.0, 1.0);
        assert_eq!(gauge_seconds(delay) as f64 / 180.0, ratio);
    }
}

#[test]
fn the_controls_are_explained() {
    let lines = help_lines(0);
    assert_eq!(lines[0], "↑/↓ or j/k select channel");
    assert_eq!(lines[1], "Enter play  Space pause  +/- volume");
    assert_eq!(lines[2], "1/2/3 rewind minutes  l live");
    assert_eq!(lines[3], "t/T theme  m format  r record  q quit");
    assert_eq!(lines[4], "Mode: live");
    assert_eq!(help_lines(1)[4], "Mode: timeshift");
    assert_eq!(lines.len(), 5);
}

#[test]
fn borders_take_two() {
    assert_eq!([0, 1, 2, 3, 80].map(inside_border), [0, 0, 0, 1, 78]);
}

#[test]
fn panes_are_placed() {
    let at = |x: u16| Area { x, y: 0, width: 1, height: 1 };
    let panes = place(&[at(1), at(2)], &[at(3), at(4), at(5), at(6)]);
    assert_eq!(
        panes,
        Panes { channels: at(1), now_playing: at(3), visualizer: at(4), buffer: at(5), help: at(6) }
    );
}

#[test]
fn the_screen_is_divided() {
    let panes = divide_screen(Area { x: 0, y: 0, width: 120, height: 40 });
    assert_eq!(panes.channels, Area { x: 0, y: 0, width: 30, height: 40 });
    assert_eq!(panes.now_playing, Area { x: 30, y: 0, width: 90, height: 8 });
    assert_eq!(panes.visualizer, Area { x: 30, y: 8, width: 90, height: 23 });
    assert_eq!(panes.buffer, Area { x: 30, y: 31, width: 90, height: 3 });
    assert_eq!(panes.help, Area { x: 30, y: 34, width: 90, height: 6 });
}

#[test]
fn roomy_screens_give_every_pane_its_size() {
    for x in [0u16, 5] {
        for width in (86..300).chain([60000]) {
            for height in [31u16, 32, 57, 200, 50000] {
                let panes = divide_screen(Area { x, y: 3, width, height });
                assert_eq!(panes.channels, Area { x, y: 3, width: 30, height });
                let right = |y: u16, height: u16| Area { x: x + 30, y, width: width - 30, height };
                assert_eq!(panes.now_playing, right(3, 8));
                assert_eq!(panes.visualizer, right(11, height - 17));
                assert_eq!(panes.buffer, right(3 + height - 9, 3));
                assert_eq!(panes.help, right(3 + height - 6, 6));
            }
        }
    }
}

#[test]
fn the_screen_is_divided_as_by_the_layout() {
    for width in [0u16, 1, 29, 40, 80, 85, 86, 200] {
        for height in [0u16, 5, 20, 30, 31, 60] {
            let whole = Rect { x: 0, y: 0, width, height };
            let sides = Layout::default()
                .direction(Direction::Horizontal)
                .constraints([Constraint::Length(30), Constraint::Min(56)])
                .split(whole);
            let right = Layout::default()
                .direction(Direction::Vertical)
                .constraints([
                    Constraint::Length(8),
                    Constraint::Min(14),
                    Constraint::Length(3),
                    Constraint::Length(6),
                ])
                .split(sides[1]);
            let panes = divide_screen(area(whole));
            assert_eq!(panes.channels, area(sides[0]));
            assert_eq!(panes.now_playing, area(right[0]));
            assert_eq!(panes.visualizer, area(right[1]));
            assert_eq!(panes.buffer, area(right[2]));
            assert_eq!(panes.help, area(right[3]));
        }
    }
}

#[test]
fn a_small_screen_keeps_the_least_sizes() {
    let panes = divide_screen(Area { x: 0, y: 0, width: 80, height: 24 });
    assert_eq!(panes.channels, Area { x: 0, y: 0, width: 24, height: 24 });
    assert_eq!((panes.now_playing.x, panes.now_playing.width), (24, 56));
    assert_eq!(panes.visualizer.height, 14);
    let panes = divide_screen(Area { x: 2, y: 3, width: 40, height: 9 });
    assert_eq!(panes.channels, Area { x: 2, y: 3, width: 0, height: 9 });
    assert_eq!(panes.visualizer, Area { x: 2, y: 3, width: 40, height: 9 });
}

#[test]
fn rows_that_are_short_go_round() {
    let heights = |height: u16| {
        let panes = divide_screen(Area { x: 0, y: 0, width: 80, height });
        [panes.now_playing, panes.visualizer, panes.buffer, panes.help].map(|pane| pane.height)
    };
    assert_eq!(heights(10), [0, 10, 0, 0]);
    assert_eq!(heights(17), [3, 14, 0, 0]);
    assert_eq!(heights(22), [8, 14, 0, 0]);
    assert_eq!(heights(23), [8, 14, 1, 0]);
    assert_eq!(heights(24), [8, 14, 1, 1]);
    assert_eq!(heights(25), [8, 14, 2, 1]);
    assert_eq!(heights(28), [8, 14, 3, 3]);
    assert_eq!(heights(30), [8, 14, 3, 5]);
    assert_eq!(heights(31), [8, 14, 3, 6]);
}

#[test]
fn a_screen_ends_at_the_largest_position() {
    for (x, width) in [(65500u16, 100u16), (65535, 100), (65400, 200), (1, 65535)] {
        for (y, height) in [(65535u16, 9u16), (65515, 40), (65500, 60), (20000, 60000)] {
            let panes = divide_screen(Area { x, y, width, height });
            let (across, down) = (width.min(65535 - x), height.min(65535 - y));
            let right = if across >= 86 { across - 30 } else { across.min(56) };
            assert_eq!(panes.channels, Area { x, y, width: across - right, height });
            let help = panes.help;
            assert_eq!((help.x, help.width), (x + across - right, right));
            assert_eq!(help.y + help.height, y + down);
        }
    }
}

#[test]
fn the_layout_shares_evenly() {
    let mut seed = 777u64;
    let mut next = |limit: u64| {
        seed = seed.wrapping_mul(6364136223846793005).wrapping_add(1442695040888963407);
        (seed >> 33) % limit
    };
    for _ in 0..400 {
        let count = 2 + next(3) as usize;
        let filler = next(count as u64) as usize;
        let sizes: Vec<i64> = (0..count).map(|_| next(9) as i64).collect();
        let all: i64 = sizes.iter().sum();
        let whole = next(all as u64 + 3) as i64;
        let owed = if all <= whole { sizes[filler] + whole - all } else { sizes[filler].min(whole) };
        let mut partial: Vec<Vec<i64>> = vec![Vec::new()];
        for i in 0..count {
            let choices: Vec<i64> =
                if i == filler { vec![6 * owed] } else { (0..=6 * sizes[i]).collect() };
            partial = partial
                .iter()
                .flat_map(|head| choices.iter().map(|share| [&head[..], &[*share]].concat()))
                .filter(|head| head.iter().sum::<i64>() <= 6 * whole)
                .collect();
        }
        partial.retain(|shares| shares.iter().sum::<i64>() == 6 * whole);
        let unevenness =
            |shares: &Vec<i64>| shares.windows(2).map(|pair| (pair[0] - pair[1]).abs()).sum::<i64>();
        let least = partial.iter().map(unevenness).min().unwrap();
        let best: Vec<Vec<(i64, i64)>> = partial
            .iter()
            .filter(|shares| unevenness(shares) == least)
            .map(|shares| {
                let border = |i: usize| (shares[..i].iter().sum::<i64>() + 3) / 6;
                (0..count).map(|i| (border(i), border(i + 1) - border(i))).collect()
            })
            .collect();
        let constraints: Vec<Constraint> = sizes
            .iter()
            .enumerate()
            .map(|(i, n)| {
                if i == filler {
                    Constraint::Min(*n as u16)
                } else {
                    Constraint::Length(*n as u16)
                }
            })
            .collect();
        let rect = Rect { x: 9, y: 5, width: 3, height: whole as u16 };
        let panes = Layout::default()
            .direction(Direction::Vertical)
            .constraints(constraints.clone())
            .split(rect);
        let cut: Vec<(i64, i64)> =
            panes.iter().map(|pane| (pane.y as i64 - 5, pane.height as i64)).collect();
        assert!(best.contains(&cut), "{constraints:?} in {rect:?}: {cut:?}");
    }
}

#[test]
fn every_screen_is_covered() {
    for width in (0u16..100).chain([65000]) {
        for height in (0u16..45).chain([65000]) {
            let screen = Area { x: 7, y: 11, width, height };
            let panes = divide_screen(screen);
            let right = if width >= 86 { width - 30 } else { width.min(56) };
            assert_eq!(panes.channels, Area { x: 7, y: 11, width: width - right, height });
            let mut y = 11;
            for pane in [panes.now_playing, panes.visualizer, panes.buffer, panes.help] {
                assert_eq!((pane.x, pane.y, pane.width), (7 + width - right, y, right));
                y += pane.height;
            }
            assert_eq!(y, 11 + height);
            let middle = if height >= 31 { height - 17 } else { height.min(14) };
            assert_eq!(panes.visualizer.height, middle);
            let spare = height.saturating_sub(22);
            assert_eq!(panes.now_playing.height, height.saturating_sub(14).min(8));
            assert_eq!(panes.buffer.height, ((spare + 1) / 2).min(3));
            assert_eq!(panes.help.height, (spare - panes.buffer.height).min(6));
        }
    }
}

#[test]
fn the_layout_covers_what_is_too_small() {
    let mut seed = 54321u64;
    let mut next = |limit: u64| {
        seed = seed.wrapping_mul(6364136223846793005).wrapping_add(1442695040888963407);
        (seed >> 33) % limit
    };
    for round in 0..600 {
        let count = 1 + next(4) as usize;
        let filler = next(count as u64) as usize;
        let bound = if round % 4 == 0 { 8000 } else { 40 };
        let sizes: Vec<u16> = (0..count).map(|_| next(bound) as u16).collect();
        let all: u64 = sizes.iter().map(|n| *n as u64).sum();
        let start = next(100) as u16;
        let whole = next((all + 2).min(65000)) as u16;
        let constraints: Vec<Constraint> = sizes
            .iter()
            .enumerate()
            .map(|(i, n)| if i == filler { Constraint::Min(*n) } else { Constraint::Length(*n) })
            .collect();
        let rect = Rect { x: start, y: 7, width: whole, height: 9 };
        let panes = Layout::default()
            .direction(Direction::Horizontal)
            .constraints(constraints.clone())
            .split(rect);
        let mut at = start;
        for (i, pane) in panes.iter().enumerate() {
            assert_eq!((pane.x, pane.y, pane.height), (at, 7, 9), "{constraints:?} in {rect:?}");
            if i == filler {
                let extent = if all <= whole as u64 {
                    sizes[i] as u64 + whole as u64 - all
                } else {
                    sizes[i].min(whole) as u64
                };
                assert_eq!(pane.width as u64, extent, "{constraints:?} in {rect:?}");
            } else {
                assert!(pane.width <= sizes[i], "{constraints:?} in {rect:?}");
            }
            at += pane.width;
        }
        assert_eq!(at, start + whole, "{constraints:?} in {rect:?}");
    }
}

#[test]
fn the_layout_gives_what_can_be_had() {
    let mut seed = 12345u64;
    let mut next = |limit: u64| {
        seed = seed.wrapping_mul(6364136223846793005).wrapping_add(1442695040888963407);
        (seed >> 33) % limit
    };
    for round in 0..400 {
        let count = 1 + next(4) as usize;
        let filler = next(count as u64) as usize;
        let bound = if round % 4 == 0 { 8000 } else { 40 };
        let sizes: Vec<u16> = (0..count).map(|_| next(bound) as u16).collect();
        let spare = next(bound) as u16;
        let start = next(100) as u16;
        let whole = sizes.iter().sum::<u16>() + spare;
        let constraints: Vec<Constraint> = sizes
            .iter()
            .enumerate()
            .map(|(i, n)| if i == filler { Constraint::Min(*n) } else { Constraint::Length(*n) })
            .collect();
        for direction in [Direction::Horizontal, Direction::Vertical] {
            let rect = match direction {
                Direction::Horizontal => Rect { x: start, y: 7, width: whole, height: 9 },
                Direction::Vertical => Rect { x: 7, y: start, width: 9, height: whole },
            };
            let panes = Layout::default()
                .direction(direction)
                .constraints(constraints.clone())
                .split(rect);
            let mut at = start;
            assert_eq!(panes.len(), count);
            for (i, pane) in panes.iter().enumerate() {
                let extent = sizes[i] + if i == filler { spare } else { 0 };
                let wanted = match direction {
                    Direction::Horizontal => Rect { x: at, y: 7, width: extent, height: 9 },
                    Direction::Vertical => Rect { x: 7, y: at, width: 9, height: extent },
                };
                assert_eq!(*pane, wanted, "{constraints:?} in {rect:?}");
                at += extent;
            }
        }
    }
}
