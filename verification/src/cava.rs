//! The external spectrum monitor: its configuration, its output, and how the bars follow it.

use crate::audio::{are_bars, AudioShared, AudioView, BAR_LIMIT};
use crate::text::{
    characters, decimal, decimal_is_plain, is_space, number, parsed_number, pieces, push_decimal,
    split, splitting_undoes_joining, texts, trim, trimmed, trimming_leaves_the_text,
};
use vstd::prelude::*;
use vstd::string::StringExecFns;

verus! {

/// The configuration that the monitor is started with: raw output as lines of numbers.
pub open spec fn monitor_settings() -> Seq<char> {
    "[general]\nbars = 32\nbars = 64\nframerate = 60\nsensitivity = 100\n\n[output]\nmethod = raw\nraw_target = /dev/stdout\ndata_format = ascii\nascii_max_range = 100\n"@
}

/// The configuration that the monitor is started with.
pub fn monitor_config() -> (text: &'static str)
    ensures
        text@ == monitor_settings(),
{
    "[general]\nbars = 32\nbars = 64\nframerate = 60\nsensitivity = 100\n\n[output]\nmethod = raw\nraw_target = /dev/stdout\ndata_format = ascii\nascii_max_range = 100\n"
}

/// The name of the monitor's configuration file, which no other process uses.
pub fn monitor_config_name(process: u32) -> (name: String)
    ensures
        name@ == "srtui-cava-"@ + decimal(process as nat) + ".conf"@,
{
    let mut name: String = "srtui-cava-".to_owned();
    push_decimal(&mut name, process as u64);
    name.append(".conf");
    name
}

/// A level, cut off at the highest that a bar can show.
pub open spec fn limited(level: u64) -> u64 {
    if level < BAR_LIMIT {
        level
    } else {
        BAR_LIMIT
    }
}

/// The levels that parts of a line stand for; parts that are no numbers are passed over.
pub open spec fn levels_in(parts: Seq<Seq<char>>) -> Seq<u64>
    decreases parts.len(),
{
    if parts.len() == 0 {
        Seq::empty()
    } else {
        let before = levels_in(parts.drop_last());
        match number(parts.last()) {
            Some(level) => before.push(limited(level)),
            None => before,
        }
    }
}

/// The levels in a line of the monitor's output: numbers with semicolons between them.
pub open spec fn line_levels(line: Seq<char>) -> Seq<u64> {
    levels_in(split(trim(line), ';'))
}

/// Reads a line of the monitor's output.
pub fn monitor_levels(line: &str) -> (levels: Vec<u64>)
    ensures
        levels@ == line_levels(line@),
        forall|i: int| 0 <= i < levels@.len() ==> #[trigger] levels@[i] <= BAR_LIMIT,
{
    let chars: Vec<char> = characters(line);
    let parts: Vec<&[char]> = pieces(trimmed(chars.as_slice()), ';');
    let ghost all = split(trim(line@), ';');
    let mut levels: Vec<u64> = Vec::new();
    let mut i: usize = 0;
    assert(all.take(0) =~= Seq::<Seq<char>>::empty());
    while i < parts.len()
        invariant
            i <= parts@.len(),
            texts(parts@) == all,
            levels@ == levels_in(all.take(i as int)),
            forall|k: int| 0 <= k < levels@.len() ==> #[trigger] levels@[k] <= BAR_LIMIT,
        decreases parts@.len() - i,
    {
        assert(all.take(i + 1).drop_last() =~= all.take(i as int));
        assert(all.take(i + 1).last() == parts@[i as int]@);
        if let Some(level) = parsed_number(parts[i]) {
            levels.push(
                if level < BAR_LIMIT {
                    level
                } else {
                    BAR_LIMIT
                },
            );
        }
        i = i + 1;
    }
    assert(all.take(i as int) =~= all);
    levels
}

/// Where a bar goes from its height towards a level: about a third of the way, to the nearest
/// whole number.
pub open spec fn eased(height: u64, level: u64) -> u64 {
    ((68 * height + 32 * level + 50) / 100) as u64
}

/// The level for a bar; 0 where the monitor gave none.
pub open spec fn level_for(levels: Seq<u64>, bar: int) -> u64 {
    if bar < levels.len() {
        levels[bar]
    } else {
        0
    }
}

/// The state once a line of the monitor's output has arrived; a line without levels changes
/// nothing.
pub open spec fn monitored<S>(audio: AudioView<S>, line: Seq<char>) -> AudioView<S> {
    let levels = line_levels(line);
    if levels.len() == 0 {
        audio
    } else {
        AudioView {
            bars: Seq::new(
                audio.bars.len(),
                |i: int| eased(audio.bars[i], level_for(levels, i)),
            ),
            ..audio
        }
    }
}

impl<S: Copy> AudioShared<S> {
    /// From now on the monitor drives the bars.
    pub fn monitor_started(&mut self)
        requires
            old(self)@.wf(),
        ensures
            final(self)@ == (AudioView { cava_active: true, ..old(self)@ }),
            final(self)@.wf(),
    {
        self.cava_active = true;
    }

    /// The monitor no longer drives the bars.
    pub fn monitor_stopped(&mut self)
        requires
            old(self)@.wf(),
        ensures
            final(self)@ == (AudioView { cava_active: false, ..old(self)@ }),
            final(self)@.wf(),
    {
        self.cava_active = false;
    }

    /// Lets the bars follow a line of the monitor's output.
    pub fn follow_monitor(&mut self, line: &str)
        requires
            old(self)@.wf(),
        ensures
            final(self)@ == monitored(old(self)@, line@),
            final(self)@.wf(),
            final(self).bars@.len() == old(self).bars@.len(),
            forall|i: int|
                0 <= i < line_levels(line@).len() && i < old(self).bars@.len()
                    ==> #[trigger] final(self).bars@[i] == (68 * old(self).bars@[i] + 32
                    * line_levels(line@)[i] + 50) / 100,
            forall|i: int|
                0 < line_levels(line@).len() <= i < old(self).bars@.len()
                    ==> #[trigger] final(self).bars@[i] == (68 * old(self).bars@[i] + 50) / 100,
            line_levels(line@).len() == 0 ==> final(self).bars@ == old(self).bars@,
    {
        let levels: Vec<u64> = monitor_levels(line);
        if levels.len() == 0 {
            return ;
        }
        let ghost before = self@;
        let mut bars: Vec<u64> = Vec::new();
        let mut i: usize = 0;
        while i < self.bars.len()
            invariant
                i <= self.bars@.len(),
                self@ == before,
                are_bars(before.bars),
                bars@.len() == i,
                forall|k: int| 0 <= k < levels@.len() ==> #[trigger] levels@[k] <= BAR_LIMIT,
                forall|k: int|
                    0 <= k < i ==> #[trigger] bars@[k] == eased(
                        before.bars[k],
                        level_for(levels@, k),
                    ) && bars@[k] <= BAR_LIMIT,
            decreases self.bars@.len() - i,
        {
            let height: u64 = self.bars[i];
            assert(before.bars[i as int] <= BAR_LIMIT);
            let level: u64 = if i < levels.len() {
                levels[i]
            } else {
                0
            };
            bars.push((68 * height + 32 * level + 50) / 100);
            i = i + 1;
        }
        self.bars = bars;
        assert(self@ =~= monitored(before, line@));
    }
}

/// A bar moves towards its level and never past it, and stays where it is once there.
pub proof fn bars_move_towards_their_level(height: u64, level: u64)
    requires
        height <= BAR_LIMIT,
        level <= BAR_LIMIT,
    ensures
        height <= level ==> height <= eased(height, level) <= level,
        level <= height ==> level <= eased(height, level) <= height,
        height == level ==> eased(height, level) == level,
{
}

/// Levels are read part by part: the levels of two runs of parts stand behind each other, a part
/// that is a number gives it, cut off at 100, and a part that is none gives nothing.
pub proof fn levels_are_read_part_by_part(
    first: Seq<Seq<char>>,
    part: Seq<char>,
    second: Seq<Seq<char>>,
)
    ensures
        levels_in(first + second) == levels_in(first) + levels_in(second),
        number(part) is None ==> levels_in(seq![part]).len() == 0,
        number(part) is Some && number(part)->0 <= 100 ==> levels_in(seq![part]) == seq![
            number(part)->0,
        ],
        number(part) is Some && number(part)->0 > 100 ==> levels_in(seq![part]) == seq![100u64],
    decreases second.len(),
{
    if second.len() == 0 {
        assert(first + second =~= first);
        assert(levels_in(first) + levels_in(second) =~= levels_in(first));
    } else {
        assert((first + second).drop_last() =~= first + second.drop_last());
        levels_are_read_part_by_part(first, part, second.drop_last());
        assert(levels_in(first + second) =~= levels_in(first) + levels_in(second));
    }
    reveal_with_fuel(levels_in, 2);
    assert(seq![part].drop_last() =~= Seq::<Seq<char>>::empty());
    if let Some(level) = number(part) {
        assert(levels_in(seq![part]) =~= seq![limited(level)]);
    }
}

/// A line as the monitor writes it: every level in decimal notation with a semicolon behind it.
pub open spec fn level_line(levels: Seq<u64>) -> Seq<char>
    decreases levels.len(),
{
    if levels.len() == 0 {
        Seq::empty()
    } else {
        decimal(levels[0] as nat) + seq![';'] + level_line(levels.drop_first())
    }
}

proof fn lemma_level_line(levels: Seq<u64>)
    ensures
        levels_in(split(level_line(levels), ';')) == Seq::new(
            levels.len(),
            |i: int|
                if levels[i] <= 100 {
                    levels[i]
                } else {
                    100
                },
        ),
        levels.len() > 0 ==> level_line(levels).len() > 0 && '0' <= level_line(levels)[0] <= '9'
            && level_line(levels).last() == ';',
    decreases levels.len(),
{
    let wanted = Seq::new(
        levels.len(),
        |i: int|
            if levels[i] <= 100 {
                levels[i]
            } else {
                100
            },
    );
    if levels.len() == 0 {
        let nothing = Seq::<char>::empty();
        splitting_undoes_joining(nothing, ';', nothing);
        assert(number(nothing) is None);
        levels_are_read_part_by_part(Seq::empty(), nothing, Seq::empty());
        assert(levels_in(split(level_line(levels), ';')) =~= wanted);
    } else {
        let part = decimal(levels[0] as nat);
        let rest = levels.drop_first();
        decimal_is_plain(levels[0]);
        lemma_level_line(rest);
        assert(!part.contains(';'));
        splitting_undoes_joining(part, ';', level_line(rest));
        levels_are_read_part_by_part(seq![part], part, split(level_line(rest), ';'));
        assert(levels_in(seq![part]) == seq![wanted[0]]);
        assert(levels_in(split(level_line(levels), ';')) =~= wanted);
        let line = level_line(levels);
        assert(line[0] == part[0]);
        if rest.len() == 0 {
            assert(line =~= part + seq![';']);
        } else {
            assert(line.last() == level_line(rest).last());
        }
    }
}

/// A line of levels is read back level by level, in order, each cut off at 100, whatever white
/// space is around the line.
pub proof fn levels_are_read_back(levels: Seq<u64>, before: Seq<char>, behind: Seq<char>)
    requires
        forall|i: int| 0 <= i < before.len() ==> is_space(#[trigger] before[i]),
        forall|i: int| 0 <= i < behind.len() ==> is_space(#[trigger] behind[i]),
    ensures
        ({
            let read = line_levels(before + level_line(levels) + behind);
            &&& read.len() == levels.len()
            &&& forall|i: int|
                0 <= i < levels.len() && levels[i] <= 100 ==> #[trigger] read[i] == levels[i]
            &&& forall|i: int|
                0 <= i < levels.len() && levels[i] > 100 ==> #[trigger] read[i] == 100
        }),
{
    lemma_level_line(levels);
    trimming_leaves_the_text(before, level_line(levels), behind);
}

/// Every bar follows the level at its own place in the line, and 0 where the line has none for it:
/// it moves towards that level, by 32 parts in a hundred of the way, to the nearest whole number,
/// and never past it. A line without levels changes nothing, and no line changes anything but the
/// bars.
pub proof fn bars_follow_their_own_levels<S>(audio: AudioView<S>, line: Seq<char>, bar: int)
    requires
        audio.wf(),
        0 <= bar < 64,
    ensures
        ({
            let levels = line_levels(line);
            let after = monitored(audio, line);
            let height = audio.bars[bar];
            &&& after.bars.len() == 64
            &&& levels.len() == 0 ==> after == audio
            &&& bar < levels.len() ==> {
                &&& after.bars[bar] == (68 * height + 32 * levels[bar] + 50) / 100
                &&& height <= levels[bar] ==> height <= after.bars[bar] <= levels[bar]
                &&& height >= levels[bar] ==> height >= after.bars[bar] >= levels[bar]
            }
            &&& 0 < levels.len() <= bar ==> {
                &&& after.bars[bar] == (68 * height + 50) / 100
                &&& after.bars[bar] <= height
            }
            &&& after == (AudioView { bars: after.bars, ..audio })
        }),
{
    lemma_levels_are_limited(split(trim(line), ';'));
    assert(audio.bars[bar] <= BAR_LIMIT);
}

proof fn lemma_levels_are_limited(parts: Seq<Seq<char>>)
    ensures
        forall|i: int| 0 <= i < levels_in(parts).len() ==> #[trigger] levels_in(parts)[i] <= 100,
    decreases parts.len(),
{
    if parts.len() > 0 {
        let before = levels_in(parts.drop_last());
        lemma_levels_are_limited(parts.drop_last());
        assert forall|i: int| 0 <= i < levels_in(parts).len() implies #[trigger] levels_in(parts)[i]
            <= 100 by {
            if i < before.len() {
                assert(levels_in(parts)[i] == before[i]);
            }
        }
    }
}

/// What the monitor writes is what the bars follow: the bar at a place moves towards the level that
/// was written at the same place.
pub proof fn bars_follow_what_is_written<S>(
    audio: AudioView<S>,
    levels: Seq<u64>,
    behind: Seq<char>,
    bar: int,
)
    requires
        audio.wf(),
        0 <= bar < 64,
        bar < levels.len(),
        levels[bar] <= 100,
        forall|i: int| 0 <= i < behind.len() ==> is_space(#[trigger] behind[i]),
    ensures
        monitored(audio, level_line(levels) + behind).bars[bar] == (68 * audio.bars[bar] + 32
            * levels[bar] + 50) / 100,
{
    let line = level_line(levels) + behind;
    levels_are_read_back(levels, Seq::empty(), behind);
    assert(Seq::<char>::empty() + level_line(levels) + behind =~= line);
    assert(line_levels(line)[bar] == levels[bar]);
    bars_follow_their_own_levels(audio, line, bar);
}

} // verus!
