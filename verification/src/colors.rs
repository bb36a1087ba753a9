//! Terminal colours for highlighted code: a highlighter's RGB colour mapped
//! to the nearest of the 16 ANSI colours, or to a pastel entry of the
//! 256-colour palette.
use vstd::prelude::*;
use crate::notebook::CellType;
use crate::state::Color;

verus! {

pub open spec fn max3(r: u8, g: u8, b: u8) -> int {
    if r >= g && r >= b {
        r as int
    } else if g >= b {
        g as int
    } else {
        b as int
    }
}

pub open spec fn min3(r: u8, g: u8, b: u8) -> int {
    if r <= g && r <= b {
        r as int
    } else if g <= b {
        g as int
    } else {
        b as int
    }
}

/// The mean of the three channels, rounded down.
pub open spec fn brightness(r: u8, g: u8, b: u8) -> int {
    (r + g + b) / 3
}

/// A saturation below 20%: `(max - min) / max < 0.2`, black included.
pub open spec fn greyish(r: u8, g: u8, b: u8) -> bool {
    max3(r, g, b) == 0 || 5 * (max3(r, g, b) - min3(r, g, b)) < max3(r, g, b)
}

/// The hue family of a saturated colour: 0 red, 1 green, 2 blue, 3 yellow,
/// 4 magenta, 5 cyan (decided by which channels dominate).
pub open spec fn hue(r: u8, g: u8, b: u8) -> u8 {
    if r > g && r > b {
        0
    } else if g > r && g > b {
        1
    } else if b > r && b > g {
        2
    } else if r > b && g > b {
        3
    } else if r > g && b > g {
        4
    } else {
        5
    }
}

/// The nearest ANSI colour: grey shades by brightness for weakly saturated
/// colours, else the hue family, light when brighter than 128.
pub open spec fn ansi_spec(r: u8, g: u8, b: u8) -> Color {
    let br = brightness(r, g, b);
    if greyish(r, g, b) {
        if br < 85 {
            Color::DarkGray
        } else if br < 170 {
            Color::Gray
        } else {
            Color::White
        }
    } else {
        let light = br > 128;
        match hue(r, g, b) {
            0 => if light { Color::LightRed } else { Color::Red },
            1 => if light { Color::LightGreen } else { Color::Green },
            2 => if light { Color::LightBlue } else { Color::Blue },
            3 => if light { Color::LightYellow } else { Color::Yellow },
            4 => if light { Color::LightMagenta } else { Color::Magenta },
            _ => if light { Color::LightCyan } else { Color::Cyan },
        }
    }
}

/// The pastel palette entry: greys 244, 250, 253 by brightness, else a
/// light or a deeper pastel of the hue family.
pub open spec fn pastel_spec(r: u8, g: u8, b: u8) -> Color {
    let br = brightness(r, g, b);
    if greyish(r, g, b) {
        if br < 85 {
            Color::Indexed(244)
        } else if br < 170 {
            Color::Indexed(250)
        } else {
            Color::Indexed(253)
        }
    } else {
        let light = br > 128;
        match hue(r, g, b) {
            0 => if light { Color::Indexed(217) } else { Color::Indexed(211) },
            1 => if light { Color::Indexed(156) } else { Color::Indexed(114) },
            2 => if light { Color::Indexed(153) } else { Color::Indexed(117) },
            3 => if light { Color::Indexed(229) } else { Color::Indexed(222) },
            4 => if light { Color::Indexed(219) } else { Color::Indexed(182) },
            _ => if light { Color::Indexed(159) } else { Color::Indexed(152) },
        }
    }
}

/// Brightness, greyness and hue family of a colour.
fn classify(r: u8, g: u8, b: u8) -> (c: (u32, bool, u8))
    ensures
        c.0 == brightness(r, g, b),
        c.1 == greyish(r, g, b),
        c.2 == hue(r, g, b),
{
    let br: u32 = (r as u32 + g as u32 + b as u32) / 3;
    let mx: u8 = if r >= g && r >= b {
        r
    } else if g >= b {
        g
    } else {
        b
    };
    let mn: u8 = if r <= g && r <= b {
        r
    } else if g <= b {
        g
    } else {
        b
    };
    let grey = mx == 0 || 5 * ((mx - mn) as u32) < mx as u32;
    let h: u8 = if r > g && r > b {
        0
    } else if g > r && g > b {
        1
    } else if b > r && b > g {
        2
    } else if r > b && g > b {
        3
    } else if r > g && b > g {
        4
    } else {
        5
    };
    (br, grey, h)
}

/// The ANSI colour nearest to an RGB colour.
pub fn rgb_to_ansi_color(r: u8, g: u8, b: u8) -> (c: Color)
    ensures
        c == ansi_spec(r, g, b),
{
    let (br, grey, h) = classify(r, g, b);
    if grey {
        if br < 85 {
            Color::DarkGray
        } else if br < 170 {
            Color::Gray
        } else {
            Color::White
        }
    } else {
        let light = br > 128;
        match h {
            0 => if light { Color::LightRed } else { Color::Red },
            1 => if light { Color::LightGreen } else { Color::Green },
            2 => if light { Color::LightBlue } else { Color::Blue },
            3 => if light { Color::LightYellow } else { Color::Yellow },
            4 => if light { Color::LightMagenta } else { Color::Magenta },
            _ => if light { Color::LightCyan } else { Color::Cyan },
        }
    }
}

/// The pastel palette entry for an RGB colour.
pub fn rgb_to_pastel_color(r: u8, g: u8, b: u8) -> (c: Color)
    ensures
        c == pastel_spec(r, g, b),
{
    let (br, grey, h) = classify(r, g, b);
    if grey {
        if br < 85 {
            Color::Indexed(244)
        } else if br < 170 {
            Color::Indexed(250)
        } else {
            Color::Indexed(253)
        }
    } else {
        let light = br > 128;
        match h {
            0 => if light { Color::Indexed(217) } else { Color::Indexed(211) },
            1 => if light { Color::Indexed(156) } else { Color::Indexed(114) },
            2 => if light { Color::Indexed(153) } else { Color::Indexed(117) },
            3 => if light { Color::Indexed(229) } else { Color::Indexed(222) },
            4 => if light { Color::Indexed(219) } else { Color::Indexed(182) },
            _ => if light { Color::Indexed(159) } else { Color::Indexed(152) },
        }
    }
}

/// The colour a highlighted span gets under a colorscheme: pastel for
/// `pastel`, ANSI for any other.
pub fn span_color(r: u8, g: u8, b: u8, pastel: bool) -> (c: Color)
    ensures
        c == (if pastel {
            pastel_spec(r, g, b)
        } else {
            ansi_spec(r, g, b)
        }),
{
    if pastel {
        rgb_to_pastel_color(r, g, b)
    } else {
        rgb_to_ansi_color(r, g, b)
    }
}

/// The highlighter's name of a cell's language; markdown is shown as it is.
pub open spec fn syntax_spec(k: CellType) -> Option<Seq<char>> {
    match k {
        CellType::Rust => Some("Rust"@),
        CellType::Python => Some("Python"@),
        CellType::JavaScript => Some("JavaScript"@),
        CellType::TypeScript => Some("TypeScript"@),
        CellType::C => Some("C"@),
        CellType::Cpp => Some("C++"@),
        CellType::Go => Some("Go"@),
        CellType::Shell => Some("Bash"@),
        CellType::Markdown => None,
    }
}

/// The highlighter's name of a cell's language.
pub fn syntax_name(k: CellType) -> (r: Option<&'static str>)
    ensures
        match r {
            Some(s) => syntax_spec(k) == Some(s@),
            None => syntax_spec(k) is None,
        },
{
    match k {
        CellType::Rust => Some("Rust"),
        CellType::Python => Some("Python"),
        CellType::JavaScript => Some("JavaScript"),
        CellType::TypeScript => Some("TypeScript"),
        CellType::C => Some("C"),
        CellType::Cpp => Some("C++"),
        CellType::Go => Some("Go"),
        CellType::Shell => Some("Bash"),
        CellType::Markdown => None,
    }
}

} // verus!
