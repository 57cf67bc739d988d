use srtui::visualizer::{
    bands, render_visualizer_lines, resample_bars, Band, BarColumn, Cell, ColumnFill, Tone,
};

#[test]
fn columns_lie_where_floating_point_puts_them() {
    for bars in 2..70usize {
        for width in 1..300usize {
            let columns = resample_bars(bars, width);
            assert_eq!(columns.len(), width);
            for (x, column) in columns.into_iter().enumerate() {
                let span = width.saturating_sub(1).max(1) as f64;
                let left = (x as f64 * (bars - 1) as f64 / span).floor() as usize;
                let right = (left + 1).min(bars - 1);
                assert_eq!(column, BarColumn::Blend { left, right });
            }
        }
    }
}

#[test]
fn few_bars_are_spread_too() {
    assert!(resample_bars(0, 5).is_empty());
    assert!(resample_bars(64, 0).is_empty());
    assert_eq!(resample_bars(1, 3), [BarColumn::Copy; 3]);
    assert_eq!(
        resample_bars(2, 3),
        [
            BarColumn::Blend { left: 0, right: 1 },
            BarColumn::Blend { left: 0, right: 1 },
            BarColumn::Blend { left: 1, right: 1 },
        ]
    );
}

#[test]
fn columns_reach_from_the_first_bar_to_the_last() {
    let columns = resample_bars(64, 100);
    assert!(matches!(columns[0], BarColumn::Blend { left: 0, .. }));
    assert_eq!(columns[99], BarColumn::Blend { left: 63, right: 63 });
}

#[test]
fn bars_share_out_the_frames() {
    assert_eq!(
        bands(10, 3),
        [
            Some(Band { start: 0, end: 3 }),
            Some(Band { start: 3, end: 6 }),
            Some(Band { start: 6, end: 9 }),
        ]
    );
    assert_eq!(
        bands(2, 3),
        [Some(Band { start: 0, end: 1 }), Some(Band { start: 1, end: 2 }), None]
    );
    assert!(bands(10, 0).is_empty());
    for frames in 0..200usize {
        for bars in 1..70usize {
            let band_len = (frames / bars).max(1);
            for (index, band) in bands(frames, bars).into_iter().enumerate() {
                let start = index * band_len;
                let end = ((index + 1) * band_len).min(frames);
                let wanted = if start >= end { None } else { Some(Band { start, end }) };
                assert_eq!(band, wanted);
            }
        }
    }
}

#[test]
fn nothing_to_draw_is_one_empty_line() {
    let fill = ColumnFill { whole_rows: 0, eighths: 0 };
    assert_eq!(render_visualizer_lines(&[], 5), [Vec::<Cell>::new()]);
    assert_eq!(render_visualizer_lines(&[fill], 0), [Vec::<Cell>::new()]);
}

#[test]
fn columns_are_drawn_from_the_bottom() {
    let fills = [
        ColumnFill { whole_rows: 0, eighths: 0 },
        ColumnFill { whole_rows: 1, eighths: 4 },
        ColumnFill { whole_rows: 3, eighths: 0 },
    ];
    let rows = render_visualizer_lines(&fills, 3);
    let drawn: Vec<String> =
        rows.iter().map(|row| row.iter().map(|cell| cell.glyph).collect()).collect();
    assert_eq!(drawn, ["  █", " ▄█", "▁██"]);
    assert_eq!(rows.iter().map(|row| row[0].tone).collect::<Vec<_>>(), [
        Tone::Secondary,
        Tone::Accent,
        Tone::Foreground
    ]);
}

#[test]
fn parts_of_rows_have_blocks() {
    let fills: Vec<ColumnFill> =
        (0..10).map(|eighths| ColumnFill { whole_rows: 0, eighths }).collect();
    let rows = render_visualizer_lines(&fills, 1);
    let drawn: String = rows[0].iter().map(|cell| cell.glyph).collect();
    assert_eq!(drawn, "▁▁▂▃▄▅▆▇██");
}

#[test]
fn tones_come_in_thirds() {
    let fills = [ColumnFill { whole_rows: 0, eighths: 0 }];
    let tones: Vec<Tone> =
        render_visualizer_lines(&fills, 8).iter().map(|row| row[0].tone).collect();
    assert_eq!(&tones[..2], [Tone::Secondary; 2]);
    assert_eq!(&tones[2..5], [Tone::Accent; 3]);
    assert_eq!(&tones[5..], [Tone::Foreground; 3]);
}

#[test]
fn fuller_columns_show_more_and_stand_on_the_bottom() {
    let blocks: Vec<char> = " ▁▂▃▄▅▆▇█".chars().collect();
    let height = 6usize;
    let mut fills = Vec::new();
    for whole_rows in 0..=height {
        for eighths in 0..=8 {
            fills.push(ColumnFill { whole_rows, eighths });
        }
    }
    let rows = render_visualizer_lines(&fills, height);
    let rank = |row: usize, x: usize| {
        blocks.iter().position(|block| *block == rows[row][x].glyph).unwrap()
    };
    for row in 0..height {
        for x in 1..fills.len() {
            assert!(rank(row, x - 1) <= rank(row, x));
        }
        assert_eq!(rank(row, fills.len() - 1), 8);
    }
    for x in 0..fills.len() {
        assert!(rank(height - 1, x) > 0);
        for row in 1..height {
            assert!(rank(row - 1, x) == 0 || rank(row, x) == 8);
        }
    }
}
