//! Colour themes: six palettes the user cycles through, and the rules that
//! pick a palette colour for a reading.

use vstd::prelude::*;

use crate::text::{str_eq, trim, trimmed};

verus! {

/// A terminal colour: the named ANSI colours, a 256-colour palette index or
/// a 24-bit RGB value.
#[derive(Clone, Copy, PartialEq, Eq, Structural, Debug)]
pub enum Color {
    Reset,
    Black,
    Red,
    Green,
    Yellow,
    Blue,
    Magenta,
    Cyan,
    Gray,
    DarkGray,
    LightRed,
    LightGreen,
    LightYellow,
    LightBlue,
    LightMagenta,
    LightCyan,
    White,
    Rgb(u8, u8, u8),
    Indexed(u8),
}

/// A complete colour theme for the monitor.
#[derive(Clone, Copy, Debug)]
pub struct Theme {
    pub name: &'static str,
    // Primary palette
    pub meadow: Color,
    pub clover: Color,
    pub grass: Color,
    pub milk: Color,
    pub cream: Color,
    pub daisy: Color,
    pub blossom: Color,
    pub sky: Color,
    pub earth: Color,
    pub spot: Color,
    pub dim: Color,
    // Semantic
    pub bg: Color,
    pub danger: Color,
    pub warning: Color,
    pub success: Color,
    // Block borders
    pub block_border: Color,
    pub block_title: Color,
    // Gauge backgrounds
    pub gauge_cpu_bg: Color,
    pub gauge_mem_bg: Color,
    pub gauge_disk_bg: Color,
}

/// The number of built-in themes.
pub open spec fn theme_count() -> nat {
    6
}

impl Theme {
    /// The built-in theme at position `i` of the cycle (the last one past the
    /// end).
    pub open spec fn spec_at(i: int) -> Theme {
        if i == 0 {
            Theme {
                name: "Pasture",
                meadow: Color::Rgb(72, 158, 52),
                clover: Color::Rgb(45, 120, 38),
                grass: Color::Rgb(120, 195, 85),
                milk: Color::Rgb(248, 244, 234),
                cream: Color::Rgb(230, 220, 195),
                daisy: Color::Rgb(255, 210, 50),
                blossom: Color::Rgb(255, 130, 165),
                sky: Color::Rgb(90, 185, 225),
                earth: Color::Rgb(140, 95, 50),
                spot: Color::Rgb(35, 32, 28),
                dim: Color::Rgb(108, 122, 103),
                bg: Color::Rgb(24, 22, 18),
                danger: Color::Red,
                warning: Color::Yellow,
                success: Color::Rgb(72, 158, 52),
                block_border: Color::Rgb(72, 158, 52),
                block_title: Color::Rgb(255, 210, 50),
                gauge_cpu_bg: Color::Rgb(28, 38, 25),
                gauge_mem_bg: Color::Rgb(25, 35, 45),
                gauge_disk_bg: Color::Rgb(38, 28, 18),
            }
        } else if i == 1 {
            Theme {
                name: "Midnight",
                meadow: Color::Rgb(100, 140, 255),
                clover: Color::Rgb(60, 90, 180),
                grass: Color::Rgb(140, 170, 255),
                milk: Color::Rgb(220, 225, 240),
                cream: Color::Rgb(180, 190, 210),
                daisy: Color::Rgb(255, 220, 100),
                blossom: Color::Rgb(255, 150, 180),
                sky: Color::Rgb(120, 200, 255),
                earth: Color::Rgb(160, 130, 90),
                spot: Color::Rgb(16, 18, 30),
                dim: Color::Rgb(90, 100, 130),
                bg: Color::Rgb(10, 12, 22),
                danger: Color::Rgb(255, 80, 80),
                warning: Color::Rgb(255, 200, 60),
                success: Color::Rgb(80, 200, 120),
                block_border: Color::Rgb(100, 140, 255),
                block_title: Color::Rgb(255, 220, 100),
                gauge_cpu_bg: Color::Rgb(18, 20, 35),
                gauge_mem_bg: Color::Rgb(18, 20, 35),
                gauge_disk_bg: Color::Rgb(18, 20, 35),
            }
        } else if i == 2 {
            Theme {
                name: "Sunset",
                meadow: Color::Rgb(230, 120, 50),
                clover: Color::Rgb(180, 80, 30),
                grass: Color::Rgb(255, 160, 80),
                milk: Color::Rgb(255, 240, 225),
                cream: Color::Rgb(240, 210, 180),
                daisy: Color::Rgb(255, 230, 100),
                blossom: Color::Rgb(255, 130, 130),
                sky: Color::Rgb(130, 170, 255),
                earth: Color::Rgb(170, 110, 60),
                spot: Color::Rgb(32, 18, 24),
                dim: Color::Rgb(155, 110, 85),
                bg: Color::Rgb(24, 12, 16),
                danger: Color::Rgb(255, 60, 60),
                warning: Color::Rgb(255, 180, 40),
                success: Color::Rgb(200, 140, 60),
                block_border: Color::Rgb(230, 120, 50),
                block_title: Color::Rgb(255, 230, 100),
                gauge_cpu_bg: Color::Rgb(35, 18, 22),
                gauge_mem_bg: Color::Rgb(28, 18, 28),
                gauge_disk_bg: Color::Rgb(35, 22, 16),
            }
        } else if i == 3 {
            Theme {
                name: "Forest",
                meadow: Color::Rgb(50, 180, 80),
                clover: Color::Rgb(20, 100, 30),
                grass: Color::Rgb(80, 210, 100),
                milk: Color::Rgb(225, 240, 220),
                cream: Color::Rgb(190, 215, 180),
                daisy: Color::Rgb(220, 240, 80),
                blossom: Color::Rgb(220, 120, 160),
                sky: Color::Rgb(80, 190, 200),
                earth: Color::Rgb(120, 80, 40),
                spot: Color::Rgb(18, 28, 16),
                dim: Color::Rgb(90, 120, 85),
                bg: Color::Rgb(10, 20, 8),
                danger: Color::Rgb(255, 70, 70),
                warning: Color::Rgb(220, 200, 40),
                success: Color::Rgb(50, 200, 80),
                block_border: Color::Rgb(50, 180, 80),
                block_title: Color::Rgb(220, 240, 80),
                gauge_cpu_bg: Color::Rgb(16, 32, 12),
                gauge_mem_bg: Color::Rgb(14, 28, 22),
                gauge_disk_bg: Color::Rgb(26, 20, 10),
            }
        } else if i == 4 {
            Theme {
                name: "Arctic",
                meadow: Color::Rgb(100, 210, 230),
                clover: Color::Rgb(60, 150, 170),
                grass: Color::Rgb(160, 230, 240),
                milk: Color::Rgb(235, 245, 255),
                cream: Color::Rgb(200, 220, 235),
                daisy: Color::Rgb(255, 240, 200),
                blossom: Color::Rgb(240, 170, 200),
                sky: Color::Rgb(130, 200, 240),
                earth: Color::Rgb(180, 160, 140),
                spot: Color::Rgb(25, 30, 38),
                dim: Color::Rgb(120, 140, 160),
                bg: Color::Rgb(18, 24, 32),
                danger: Color::Rgb(255, 90, 90),
                warning: Color::Rgb(255, 210, 80),
                success: Color::Rgb(100, 210, 200),
                block_border: Color::Rgb(100, 210, 230),
                block_title: Color::Rgb(255, 240, 200),
                gauge_cpu_bg: Color::Rgb(22, 30, 40),
                gauge_mem_bg: Color::Rgb(20, 30, 42),
                gauge_disk_bg: Color::Rgb(28, 28, 36),
            }
        } else {
            Theme {
                name: "Retro",
                meadow: Color::Rgb(0, 255, 0),
                clover: Color::Rgb(0, 180, 0),
                grass: Color::Rgb(80, 255, 80),
                milk: Color::Rgb(220, 255, 220),
                cream: Color::Rgb(180, 255, 180),
                daisy: Color::Rgb(255, 255, 0),
                blossom: Color::Rgb(255, 100, 255),
                sky: Color::Rgb(0, 200, 255),
                earth: Color::Rgb(180, 140, 60),
                spot: Color::Rgb(8, 12, 8),
                dim: Color::Rgb(80, 130, 80),
                bg: Color::Rgb(0, 4, 0),
                danger: Color::Rgb(255, 0, 0),
                warning: Color::Rgb(255, 255, 0),
                success: Color::Rgb(0, 255, 0),
                block_border: Color::Rgb(0, 255, 0),
                block_title: Color::Rgb(255, 255, 0),
                gauge_cpu_bg: Color::Rgb(8, 20, 8),
                gauge_mem_bg: Color::Rgb(8, 16, 24),
                gauge_disk_bg: Color::Rgb(20, 14, 8),
            }
        }
    }

    /// The position of the built-in theme called `name` in the cycle, or 0
    /// when no built-in theme has that name.
    pub open spec fn spec_index_of(name: Seq<char>) -> int {
        if name == "Pasture"@ {
            0
        } else if name == "Midnight"@ {
            1
        } else if name == "Sunset"@ {
            2
        } else if name == "Forest"@ {
            3
        } else if name == "Arctic"@ {
            4
        } else if name == "Retro"@ {
            5
        } else {
            0
        }
    }

    /// The Pasture theme.
    pub fn pasture() -> (t: Theme)
        ensures
            t == Theme::spec_at(0),
    {
        Theme {
            name: "Pasture",
            meadow: Color::Rgb(72, 158, 52),
            clover: Color::Rgb(45, 120, 38),
            grass: Color::Rgb(120, 195, 85),
            milk: Color::Rgb(248, 244, 234),
            cream: Color::Rgb(230, 220, 195),
            daisy: Color::Rgb(255, 210, 50),
            blossom: Color::Rgb(255, 130, 165),
            sky: Color::Rgb(90, 185, 225),
            earth: Color::Rgb(140, 95, 50),
            spot: Color::Rgb(35, 32, 28),
            dim: Color::Rgb(108, 122, 103),
            bg: Color::Rgb(24, 22, 18),
            danger: Color::Red,
            warning: Color::Yellow,
            success: Color::Rgb(72, 158, 52),
            block_border: Color::Rgb(72, 158, 52),
            block_title: Color::Rgb(255, 210, 50),
            gauge_cpu_bg: Color::Rgb(28, 38, 25),
            gauge_mem_bg: Color::Rgb(25, 35, 45),
            gauge_disk_bg: Color::Rgb(38, 28, 18),
        }
    }

    /// The Midnight theme.
    pub fn midnight() -> (t: Theme)
        ensures
            t == Theme::spec_at(1),
    {
        Theme {
            name: "Midnight",
            meadow: Color::Rgb(100, 140, 255),
            clover: Color::Rgb(60, 90, 180),
            grass: Color::Rgb(140, 170, 255),
            milk: Color::Rgb(220, 225, 240),
            cream: Color::Rgb(180, 190, 210),
            daisy: Color::Rgb(255, 220, 100),
            blossom: Color::Rgb(255, 150, 180),
            sky: Color::Rgb(120, 200, 255),
            earth: Color::Rgb(160, 130, 90),
            spot: Color::Rgb(16, 18, 30),
            dim: Color::Rgb(90, 100, 130),
            bg: Color::Rgb(10, 12, 22),
            danger: Color::Rgb(255, 80, 80),
            warning: Color::Rgb(255, 200, 60),
            success: Color::Rgb(80, 200, 120),
            block_border: Color::Rgb(100, 140, 255),
            block_title: Color::Rgb(255, 220, 100),
            gauge_cpu_bg: Color::Rgb(18, 20, 35),
            gauge_mem_bg: Color::Rgb(18, 20, 35),
            gauge_disk_bg: Color::Rgb(18, 20, 35),
        }
    }

    /// The Sunset theme.
    pub fn sunset() -> (t: Theme)
        ensures
            t == Theme::spec_at(2),
    {
        Theme {
            name: "Sunset",
            meadow: Color::Rgb(230, 120, 50),
            clover: Color::Rgb(180, 80, 30),
            grass: Color::Rgb(255, 160, 80),
            milk: Color::Rgb(255, 240, 225),
            cream: Color::Rgb(240, 210, 180),
            daisy: Color::Rgb(255, 230, 100),
            blossom: Color::Rgb(255, 130, 130),
            sky: Color::Rgb(130, 170, 255),
            earth: Color::Rgb(170, 110, 60),
            spot: Color::Rgb(32, 18, 24),
            dim: Color::Rgb(155, 110, 85),
            bg: Color::Rgb(24, 12, 16),
            danger: Color::Rgb(255, 60, 60),
            warning: Color::Rgb(255, 180, 40),
            success: Color::Rgb(200, 140, 60),
            block_border: Color::Rgb(230, 120, 50),
            block_title: Color::Rgb(255, 230, 100),
            gauge_cpu_bg: Color::Rgb(35, 18, 22),
            gauge_mem_bg: Color::Rgb(28, 18, 28),
            gauge_disk_bg: Color::Rgb(35, 22, 16),
        }
    }

    /// The Forest theme.
    pub fn forest() -> (t: Theme)
        ensures
            t == Theme::spec_at(3),
    {
        Theme {
            name: "Forest",
            meadow: Color::Rgb(50, 180, 80),
            clover: Color::Rgb(20, 100, 30),
            grass: Color::Rgb(80, 210, 100),
            milk: Color::Rgb(225, 240, 220),
            cream: Color::Rgb(190, 215, 180),
            daisy: Color::Rgb(220, 240, 80),
            blossom: Color::Rgb(220, 120, 160),
            sky: Color::Rgb(80, 190, 200),
            earth: Color::Rgb(120, 80, 40),
            spot: Color::Rgb(18, 28, 16),
            dim: Color::Rgb(90, 120, 85),
            bg: Color::Rgb(10, 20, 8),
            danger: Color::Rgb(255, 70, 70),
            warning: Color::Rgb(220, 200, 40),
            success: Color::Rgb(50, 200, 80),
            block_border: Color::Rgb(50, 180, 80),
            block_title: Color::Rgb(220, 240, 80),
            gauge_cpu_bg: Color::Rgb(16, 32, 12),
            gauge_mem_bg: Color::Rgb(14, 28, 22),
            gauge_disk_bg: Color::Rgb(26, 20, 10),
        }
    }

    /// The Arctic theme.
    pub fn arctic() -> (t: Theme)
        ensures
            t == Theme::spec_at(4),
    {
        Theme {
            name: "Arctic",
            meadow: Color::Rgb(100, 210, 230),
            clover: Color::Rgb(60, 150, 170),
            grass: Color::Rgb(160, 230, 240),
            milk: Color::Rgb(235, 245, 255),
            cream: Color::Rgb(200, 220, 235),
            daisy: Color::Rgb(255, 240, 200),
            blossom: Color::Rgb(240, 170, 200),
            sky: Color::Rgb(130, 200, 240),
            earth: Color::Rgb(180, 160, 140),
            spot: Color::Rgb(25, 30, 38),
            dim: Color::Rgb(120, 140, 160),
            bg: Color::Rgb(18, 24, 32),
            danger: Color::Rgb(255, 90, 90),
            warning: Color::Rgb(255, 210, 80),
            success: Color::Rgb(100, 210, 200),
            block_border: Color::Rgb(100, 210, 230),
            block_title: Color::Rgb(255, 240, 200),
            gauge_cpu_bg: Color::Rgb(22, 30, 40),
            gauge_mem_bg: Color::Rgb(20, 30, 42),
            gauge_disk_bg: Color::Rgb(28, 28, 36),
        }
    }

    /// The Retro theme.
    pub fn retro() -> (t: Theme)
        ensures
            t == Theme::spec_at(5),
    {
        Theme {
            name: "Retro",
            meadow: Color::Rgb(0, 255, 0),
            clover: Color::Rgb(0, 180, 0),
            grass: Color::Rgb(80, 255, 80),
            milk: Color::Rgb(220, 255, 220),
            cream: Color::Rgb(180, 255, 180),
            daisy: Color::Rgb(255, 255, 0),
            blossom: Color::Rgb(255, 100, 255),
            sky: Color::Rgb(0, 200, 255),
            earth: Color::Rgb(180, 140, 60),
            spot: Color::Rgb(8, 12, 8),
            dim: Color::Rgb(80, 130, 80),
            bg: Color::Rgb(0, 4, 0),
            danger: Color::Rgb(255, 0, 0),
            warning: Color::Rgb(255, 255, 0),
            success: Color::Rgb(0, 255, 0),
            block_border: Color::Rgb(0, 255, 0),
            block_title: Color::Rgb(255, 255, 0),
            gauge_cpu_bg: Color::Rgb(8, 20, 8),
            gauge_mem_bg: Color::Rgb(8, 16, 24),
            gauge_disk_bg: Color::Rgb(20, 14, 8),
        }
    }

    /// The built-in theme at position `i` of the cycle.
    pub fn at(i: usize) -> (t: Theme)
        requires
            i < theme_count(),
        ensures
            t == Theme::spec_at(i as int),
    {
        if i == 0 {
            Theme::pasture()
        } else if i == 1 {
            Theme::midnight()
        } else if i == 2 {
            Theme::sunset()
        } else if i == 3 {
            Theme::forest()
        } else if i == 4 {
            Theme::arctic()
        } else {
            Theme::retro()
        }
    }

    /// Whether `name` is the name of one of the built-in themes.
    pub open spec fn is_builtin_name(name: Seq<char>) -> bool {
        exists|i: int| 0 <= i < theme_count() && (#[trigger] Theme::spec_at(i)).name@ == name
    }

    /// The built-in theme called `name`, if there is one.
    pub fn by_name(name: &str) -> (r: Option<Theme>)
        ensures
            r is Some <==> Theme::is_builtin_name(name@),
            r is Some ==> r == Some(Theme::spec_at(Theme::spec_index_of(name@))),
    {
        proof {
            reveal_strlit("Pasture");
            reveal_strlit("Midnight");
            reveal_strlit("Sunset");
            reveal_strlit("Forest");
            reveal_strlit("Arctic");
            reveal_strlit("Retro");
        }
        let mut i: usize = 0;
        while i < 6
            invariant
                i <= 6,
                forall|k: int| 0 <= k < i ==> (#[trigger] Theme::spec_at(k)).name@ != name@,
            decreases 6 - i,
        {
            let t = Theme::at(i);
            if str_eq(t.name, name) {
                return Some(t);
            }
            i = i + 1;
        }
        None
    }

    /// The theme a saved configuration names: the built-in theme whose name
    /// is the configuration text without surrounding whitespace, if any.
    pub fn from_config(data: &str) -> (r: Option<Theme>)
        ensures
            r is Some <==> Theme::is_builtin_name(trimmed(data@)),
            r is Some ==> r == Some(Theme::spec_at(Theme::spec_index_of(trimmed(data@)))),
    {
        Theme::by_name(trim(data))
    }

    /// The position of this theme in the cycle; a theme that is not one of
    /// the built-in ones counts as the first.
    pub fn index(&self) -> (r: usize)
        ensures
            r == Theme::spec_index_of(self.name@),
            r < theme_count(),
    {
        proof {
            reveal_strlit("Pasture");
            reveal_strlit("Midnight");
            reveal_strlit("Sunset");
            reveal_strlit("Forest");
            reveal_strlit("Arctic");
            reveal_strlit("Retro");
        }
        let mut i: usize = 0;
        while i < 6
            invariant
                i <= 6,
                forall|k: int| 0 <= k < i ==> (#[trigger] Theme::spec_at(k)).name@ != self.name@,
            decreases 6 - i,
        {
            if str_eq(Theme::at(i).name, self.name) {
                proof {
                    lemma_index_of_at(i as int);
                }
                return i;
            }
            i = i + 1;
        }
        proof {
            assert(Theme::spec_at(0).name@ != self.name@);
            assert(Theme::spec_at(1).name@ != self.name@);
            assert(Theme::spec_at(2).name@ != self.name@);
            assert(Theme::spec_at(3).name@ != self.name@);
            assert(Theme::spec_at(4).name@ != self.name@);
            assert(Theme::spec_at(5).name@ != self.name@);
        }
        0
    }

    /// The colour of a usage gauge at `pct` percent (whole percent, any
    /// fraction dropped): danger from 85%, warning from 60%, success below.
    pub fn gauge_color(&self, pct: u64) -> (c: Color)
        ensures
            c == (if pct >= 85 {
                self.danger
            } else if pct >= 60 {
                self.warning
            } else {
                self.success
            }),
    {
        if pct >= 85 {
            self.danger
        } else if pct >= 60 {
            self.warning
        } else {
            self.success
        }
    }

    /// The colour of a temperature of `c` whole degrees Celsius (fractions
    /// dropped, below zero counted as zero): danger from 90, warning from 70,
    /// meadow from 40, sky below.
    pub fn temp_color(&self, c: u64) -> (r: Color)
        ensures
            r == (if c >= 90 {
                self.danger
            } else if c >= 70 {
                self.warning
            } else if c >= 40 {
                self.meadow
            } else {
                self.sky
            }),
    {
        if c >= 90 {
            self.danger
        } else if c >= 70 {
            self.warning
        } else if c >= 40 {
            self.meadow
        } else {
            self.sky
        }
    }

    /// The colour of a socket row by its state: established sockets are a
    /// success, listening ones sky, closing ones a warning, the rest cream.
    pub fn conn_color(&self, state: &str) -> (r: Color)
        ensures
            r == (if state@ == "ESTAB"@ {
                self.success
            } else if state@ == "LISTEN"@ {
                self.sky
            } else if state@ == "TIME_WAIT"@ || state@ == "CLOSE_WAIT"@ || state@ == "CLOSING"@ {
                self.warning
            } else {
                self.cream
            }),
    {
        if str_eq(state, "ESTAB") {
            self.success
        } else if str_eq(state, "LISTEN") {
            self.sky
        } else if str_eq(state, "TIME_WAIT") || str_eq(state, "CLOSE_WAIT") || str_eq(
            state,
            "CLOSING",
        ) {
            self.warning
        } else {
            self.cream
        }
    }
}

/// Each built-in theme is found again by its name: the names are distinct.
pub proof fn lemma_index_of_at(i: int)
    requires
        0 <= i < theme_count(),
    ensures
        Theme::spec_index_of(Theme::spec_at(i).name@) == i,
{
    reveal_strlit("Pasture");
    reveal_strlit("Midnight");
    reveal_strlit("Sunset");
    reveal_strlit("Forest");
    reveal_strlit("Arctic");
    reveal_strlit("Retro");
    assert("Pasture"@.len() == 7);
    assert("Midnight"@.len() == 8);
    assert("Sunset"@.len() == 6);
    assert("Forest"@.len() == 6);
    assert("Arctic"@.len() == 6);
    assert("Retro"@.len() == 5);
    assert("Sunset"@[0] != "Forest"@[0]);
    assert("Sunset"@[0] != "Arctic"@[0]);
    assert("Forest"@[0] != "Arctic"@[0]);
}

/// Cycling forward from a built-in theme and back again returns to it, and
/// six steps forward go all the way round.
pub proof fn lemma_theme_cycle(i: int)
    requires
        0 <= i < theme_count(),
    ensures
        Theme::spec_index_of(Theme::spec_at(i).name@) == i,
        Theme::spec_index_of(Theme::spec_at((i + 1) % 6).name@) == (i + 1) % 6,
        ((i + 1) % 6 + 6 - 1) % 6 == i,
{
    lemma_index_of_at(i);
    lemma_index_of_at((i + 1) % 6);
}

} // verus!
