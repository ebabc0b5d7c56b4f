//! The mascot. The cow's face and mood track system load, with idle
//! animation frames for variety.

use vstd::prelude::*;

use crate::ui::theme::Color;

verus! {

/// How the cow feels about the load on the machine, calmest first.
#[derive(Clone, Copy, PartialEq, Eq, Structural, Debug)]
pub enum Mood {
    Grazing,
    Content,
    Busy,
    Stressed,
    Panic,
}

impl Mood {
    /// The rank of a mood, calmest first.
    pub open spec fn rank(self) -> nat {
        match self {
            Mood::Grazing => 0,
            Mood::Content => 1,
            Mood::Busy => 2,
            Mood::Stressed => 3,
            Mood::Panic => 4,
        }
    }

    /// The mood for a load level, in whole percent.
    pub open spec fn for_level(level: int) -> Mood {
        if level >= 90 {
            Mood::Panic
        } else if level >= 75 {
            Mood::Stressed
        } else if level >= 50 {
            Mood::Busy
        } else if level >= 25 {
            Mood::Content
        } else {
            Mood::Grazing
        }
    }

    /// The mood for a load level given in whole percent: the highest of CPU
    /// use, memory use and load average per core, with any fraction dropped
    /// (a level of 89.9% is still "stressed", not "panic").
    pub fn from_level(level: u64) -> (m: Mood)
        ensures
            m == Mood::for_level(level as int),
    {
        if level >= 90 {
            Mood::Panic
        } else if level >= 75 {
            Mood::Stressed
        } else if level >= 50 {
            Mood::Busy
        } else if level >= 25 {
            Mood::Content
        } else {
            Mood::Grazing
        }
    }

    /// The colour in which the cow is drawn.
    pub open spec fn spec_color(self) -> Color {
        match self {
            Mood::Grazing => Color::Green,
            Mood::Content => Color::LightGreen,
            Mood::Busy => Color::Yellow,
            Mood::Stressed => Color::LightRed,
            Mood::Panic => Color::Red,
        }
    }

    /// The colour in which the cow is drawn.
    pub fn color(self) -> (c: Color)
        ensures
            c == self.spec_color(),
    {
        match self {
            Mood::Grazing => Color::Green,
            Mood::Content => Color::LightGreen,
            Mood::Busy => Color::Yellow,
            Mood::Stressed => Color::LightRed,
            Mood::Panic => Color::Red,
        }
    }

    /// The one-word badge of a mood.
    pub open spec fn spec_badge(self) -> Seq<char> {
        match self {
            Mood::Grazing => "GRAZING"@,
            Mood::Content => "CONTENT"@,
            Mood::Busy => "BUSY"@,
            Mood::Stressed => "STRESSED"@,
            Mood::Panic => "PANIC"@,
        }
    }

    /// The one-word badge of a mood.
    pub fn badge(self) -> (s: &'static str)
        ensures
            s@ == self.spec_badge(),
    {
        match self {
            Mood::Grazing => "GRAZING",
            Mood::Content => "CONTENT",
            Mood::Busy => "BUSY",
            Mood::Stressed => "STRESSED",
            Mood::Panic => "PANIC",
        }
    }

    /// What the cow says.
    pub open spec fn spec_phrase(self) -> Seq<char> {
        match self {
            Mood::Grazing => "moo~ just chewing some cud"@,
            Mood::Content => "mooo, all is well in the pasture"@,
            Mood::Busy => "moo! plenty of grass to munch"@,
            Mood::Stressed => "MOOO?! the field is getting full"@,
            Mood::Panic => "MOOOO!! send hay, send help!!"@,
        }
    }

    /// What the cow says.
    pub fn phrase(self) -> (s: &'static str)
        ensures
            s@ == self.spec_phrase(),
    {
        match self {
            Mood::Grazing => "moo~ just chewing some cud",
            Mood::Content => "mooo, all is well in the pasture",
            Mood::Busy => "moo! plenty of grass to munch",
            Mood::Stressed => "MOOO?! the field is getting full",
            Mood::Panic => "MOOOO!! send hay, send help!!",
        }
    }

    /// Which of the three idle variants an animation frame shows: the cow
    /// changes pose every thirty frames.
    pub open spec fn tick(frame: u64) -> int {
        ((frame / 30) % 3) as int
    }

    /// The five lines of cow art for a mood and idle variant.
    pub open spec fn spec_art(self, tick: int) -> Seq<Seq<char>> {
        match self {
            Mood::Grazing => if tick == 0 {
                seq![
                    r"        ^__^"@,
                    r"        (--)\_______"@,
                    r"        (__)\       )\/\"@,
                    r"            ||----w |"@,
                    r"            ||     ||   ,,,"@,
                ]
            } else if tick == 1 {
                seq![
                    r"        ^__^"@,
                    r"        (--)\_______"@,
                    r"        (__)\       )\/\"@,
                    r"            ||----w |   ,"@,
                    r"            ||     ||  ,,,"@,
                ]
            } else {
                seq![
                    r"        ^__^"@,
                    r"        (oo)\_______"@,
                    r"        (__)\       )\/\"@,
                    r"            ||----w |"@,
                    r"            ||     ||   ,,,"@,
                ]
            },
            Mood::Content => seq![
                r"        ^__^"@,
                r"        (oo)\_______"@,
                r"        (__)\       )\/\"@,
                r"            ||----w |"@,
                r"            ||     ||"@,
            ],
            Mood::Busy => if tick == 0 {
                seq![
                    r"        ^__^"@,
                    r"        (oo)\_______"@,
                    r"        (__)\       )\/\  ~"@,
                    r"            ||----w |   ~"@,
                    r"            ||     ||"@,
                ]
            } else {
                seq![
                    r"        ^__^"@,
                    r"        (oO)\_______"@,
                    r"        (__)\       )\/\  ~"@,
                    r"            ||----w |   ~~"@,
                    r"            ||     ||"@,
                ]
            },
            Mood::Stressed => if tick == 0 {
                seq![
                    r"     '   ^__^"@,
                    r"      `  (Oo)\_______"@,
                    r"        (__)\       )\/\  ~~"@,
                    r"            ||----w |  ~~"@,
                    r"            ||     ||"@,
                ]
            } else {
                seq![
                    r"    ' '  ^__^"@,
                    r"     ` ` (oO)\_______"@,
                    r"        (__)\       )\/\ ~~~"@,
                    r"            ||----w | ~~~"@,
                    r"            ||     ||"@,
                ]
            },
            Mood::Panic => if tick == 0 {
                seq![
                    r"   ' ' ' ^__^"@,
                    r"    ` `  (@@)\_______"@,
                    r"        (__)\       )\/\ !!"@,
                    r"            ||----w |  !!"@,
                    r"            ||     ||"@,
                ]
            } else {
                seq![
                    r"  ' ' '  ^__^"@,
                    r"   ` ` ` (Xx)\_______"@,
                    r"        (__)\       )\/\ !!!"@,
                    r"            ||----w | !!!"@,
                    r"            ||     ||"@,
                ]
            },
        }
    }

    /// Five lines of cow art. The eyes and sweat change with mood; `frame`
    /// picks an idle animation variant.
    pub fn art(self, frame: u64) -> (a: [&'static str; 5])
        ensures
            forall|i: int| 0 <= i < 5 ==> (#[trigger] a[i])@ == self.spec_art(Mood::tick(frame))[i],
    {
        let tick = (frame / 30) % 3;
        match self {
            Mood::Grazing => match tick {
                0 => [
                    r"        ^__^",
                    r"        (--)\_______",
                    r"        (__)\       )\/\",
                    r"            ||----w |",
                    r"            ||     ||   ,,,",
                ],
                1 => [
                    r"        ^__^",
                    r"        (--)\_______",
                    r"        (__)\       )\/\",
                    r"            ||----w |   ,",
                    r"            ||     ||  ,,,",
                ],
                _ => [
                    r"        ^__^",
                    r"        (oo)\_______",
                    r"        (__)\       )\/\",
                    r"            ||----w |",
                    r"            ||     ||   ,,,",
                ],
            },
            Mood::Content => [
                r"        ^__^",
                r"        (oo)\_______",
                r"        (__)\       )\/\",
                r"            ||----w |",
                r"            ||     ||",
            ],
            Mood::Busy => match tick {
                0 => [
                    r"        ^__^",
                    r"        (oo)\_______",
                    r"        (__)\       )\/\  ~",
                    r"            ||----w |   ~",
                    r"            ||     ||",
                ],
                _ => [
                    r"        ^__^",
                    r"        (oO)\_______",
                    r"        (__)\       )\/\  ~",
                    r"            ||----w |   ~~",
                    r"            ||     ||",
                ],
            },
            Mood::Stressed => match tick {
                0 => [
                    r"     '   ^__^",
                    r"      `  (Oo)\_______",
                    r"        (__)\       )\/\  ~~",
                    r"            ||----w |  ~~",
                    r"            ||     ||",
                ],
                _ => [
                    r"    ' '  ^__^",
                    r"     ` ` (oO)\_______",
                    r"        (__)\       )\/\ ~~~",
                    r"            ||----w | ~~~",
                    r"            ||     ||",
                ],
            },
            Mood::Panic => match tick {
                0 => [
                    r"   ' ' ' ^__^",
                    r"    ` `  (@@)\_______",
                    r"        (__)\       )\/\ !!",
                    r"            ||----w |  !!",
                    r"            ||     ||",
                ],
                _ => [
                    r"  ' ' '  ^__^",
                    r"   ` ` ` (Xx)\_______",
                    r"        (__)\       )\/\ !!!",
                    r"            ||----w | !!!",
                    r"            ||     ||",
                ],
            },
        }
    }
}

/// The cow never calms down as the load rises: a higher level gives a mood
/// at least as agitated.
pub proof fn lemma_mood_monotone(lo: int, hi: int)
    requires
        lo <= hi,
    ensures
        Mood::for_level(lo).rank() <= Mood::for_level(hi).rank(),
{
}

/// The cow grazes while the box is idle (under a quarter loaded) and panics
/// once it is at least 90% loaded.
pub proof fn lemma_mood_extremes(level: int)
    ensures
        level < 25 ==> Mood::for_level(level) == Mood::Grazing,
        level >= 90 ==> Mood::for_level(level) == Mood::Panic,
{
}

/// The art cycles through its idle variants with a period of ninety frames.
pub proof fn lemma_art_period(m: Mood, frame: u64)
    requires
        frame <= u64::MAX - 90,
    ensures
        m.spec_art(Mood::tick((frame + 90) as u64)) == m.spec_art(Mood::tick(frame)),
{
    assert(((frame + 90) as u64) / 30 == frame / 30 + 3);
}

} // verus!
