//! Terminal text styling, delegated to crossterm.
//!
//! What crossterm's styling produces is not a function of the text alone:
//! it honors the convention that disables color through the process
//! environment, and offers a runtime switch for it. So nothing is promised
//! of these wrappers; instead the library calls them once, keeps the
//! styled strings as plain data in a [`GlyphTable`], and renders from
//! that. Rendering is then a pure function of the table and the world,
//! whatever the styling produced.

use vstd::prelude::*;
use crossterm::style::Stylize;

verus! {

/// Relies on crossterm's `Stylize::yellow` and the `Display` of the styled
/// content. The output may depend on the process environment; nothing is
/// promised of it.
#[verifier::external_body]
pub(crate) fn fg_yellow(s: &str) -> String {
    s.yellow().to_string()
}

/// Relies on crossterm's `Stylize::red` and the `Display` of the styled
/// content. The output may depend on the process environment; nothing is
/// promised of it.
#[verifier::external_body]
pub(crate) fn fg_red(s: &str) -> String {
    s.red().to_string()
}

/// Relies on crossterm's `Stylize::white` and the `Display` of the styled
/// content. The output may depend on the process environment; nothing is
/// promised of it.
#[verifier::external_body]
pub(crate) fn fg_white(s: &str) -> String {
    s.white().to_string()
}

/// Relies on crossterm's `Stylize::on_dark_green` and the `Display` of the
/// styled content. The output may depend on the process environment;
/// nothing is promised of it.
#[verifier::external_body]
pub(crate) fn bg_dark_green(s: &str) -> String {
    s.on_dark_green().to_string()
}

/// Relies on crossterm's `Stylize::on_blue` and the `Display` of the
/// styled content. The output may depend on the process environment;
/// nothing is promised of it.
#[verifier::external_body]
pub(crate) fn bg_blue(s: &str) -> String {
    s.on_blue().to_string()
}

/// Relies on crossterm's `Stylize::on_yellow` and the `Display` of the
/// styled content. The output may depend on the process environment;
/// nothing is promised of it.
#[verifier::external_body]
pub(crate) fn bg_yellow(s: &str) -> String {
    s.on_yellow().to_string()
}

/// Relies on crossterm's `Stylize::on_grey` and the `Display` of the
/// styled content. The output may depend on the process environment;
/// nothing is promised of it.
#[verifier::external_body]
pub(crate) fn bg_grey(s: &str) -> String {
    s.on_grey().to_string()
}

/// The five appearances a cell of one terrain can take: its content glyphs
/// and the player glyph, each over that terrain's background styling.
pub struct BaseGlyphs {
    pub empty: String,
    pub food: String,
    pub poison: String,
    pub marker: String,
    pub player: String,
}

/// One fixed set of styled strings for every cell appearance, plus the
/// styled warning prefix of player messages. Built once from the styling
/// wrappers and carried as plain data, so that everything rendered from it
/// is a pure function of the table.
pub struct GlyphTable {
    pub grass: BaseGlyphs,
    pub water: BaseGlyphs,
    pub sand: BaseGlyphs,
    pub stone: BaseGlyphs,
    pub warning: String,
}

impl GlyphTable {
    /// The game's glyphs: a space for empty content, letters for food and
    /// poison, a hash for the marker and a star for the player, yellow,
    /// red and white over each terrain's background color.
    pub fn standard() -> GlyphTable {
        let empty = String::from_str(" ");
        let food = fg_yellow("F");
        let poison = fg_red("P");
        let marker = fg_red("#");
        let player = fg_white("*");
        GlyphTable {
            grass: BaseGlyphs {
                empty: bg_dark_green(empty.as_str()),
                food: bg_dark_green(food.as_str()),
                poison: bg_dark_green(poison.as_str()),
                marker: bg_dark_green(marker.as_str()),
                player: bg_dark_green(player.as_str()),
            },
            water: BaseGlyphs {
                empty: bg_blue(empty.as_str()),
                food: bg_blue(food.as_str()),
                poison: bg_blue(poison.as_str()),
                marker: bg_blue(marker.as_str()),
                player: bg_blue(player.as_str()),
            },
            sand: BaseGlyphs {
                empty: bg_yellow(empty.as_str()),
                food: bg_yellow(food.as_str()),
                poison: bg_yellow(poison.as_str()),
                marker: bg_yellow(marker.as_str()),
                player: bg_yellow(player.as_str()),
            },
            stone: BaseGlyphs {
                empty: bg_grey(empty.as_str()),
                food: bg_grey(food.as_str()),
                poison: bg_grey(poison.as_str()),
                marker: bg_grey(marker.as_str()),
                player: bg_grey(player.as_str()),
            },
            warning: fg_red("/!\\"),
        }
    }
}

} // verus!
