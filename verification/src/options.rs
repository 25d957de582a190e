//! The settings of a run, resolved from the command-line arguments.

use vstd::prelude::*;
use vstd::std_specs::convert::{FromSpec, FromSpecImpl};

use crate::color::Color;
use crate::placement::{Corner, Margins};

verus! {

/// Side margin of the Windows watermark, in logical pixels.
pub const DEFAULT_HORIZONTAL_MARGIN: i32 = 80;

/// Bottom margin of the Windows watermark (110 pixels) less the height of
/// its taskbar (60 pixels).
pub const DEFAULT_VERTICAL_MARGIN: i32 = 110 - 60;

pub const DEFAULT_TOP_MARGIN: i32 = DEFAULT_VERTICAL_MARGIN;

pub const DEFAULT_LEFT_MARGIN: i32 = DEFAULT_HORIZONTAL_MARGIN;

pub const DEFAULT_RIGHT_MARGIN: i32 = DEFAULT_HORIZONTAL_MARGIN;

pub const DEFAULT_BOTTOM_MARGIN: i32 = DEFAULT_VERTICAL_MARGIN;

/// The two lines of the watermark.
#[derive(Debug)]
pub struct WatermarkText {
    pub line1: String,
    pub line2: String,
}

/// The command-line arguments that decide the placement, colour and text.
#[derive(Debug)]
pub struct CliArgs {
    pub corner: Corner,
    /// Margin for every edge that has none of its own.
    pub margin: Option<i32>,
    pub margin_top: Option<i32>,
    pub margin_right: Option<i32>,
    pub margin_bottom: Option<i32>,
    pub margin_left: Option<i32>,
    pub color: Color,
    pub line1: String,
    pub line2: String,
}

/// The resolved settings of the watermark.
#[derive(Debug)]
pub struct Options {
    pub text: WatermarkText,
    pub corner: Corner,
    pub margins: Margins,
    pub color: Color,
}

/// The margin of one edge: its own option if given, else the option for
/// all edges if given, else the default.
pub open spec fn chosen_margin(own: Option<i32>, all: Option<i32>, default: i32) -> i32 {
    match own {
        Some(m) => m,
        None => match all {
            Some(m) => m,
            None => default,
        },
    }
}

/// The margins that the arguments ask for.
pub open spec fn resolved_margins(cli: CliArgs) -> Margins {
    Margins {
        top: chosen_margin(cli.margin_top, cli.margin, DEFAULT_TOP_MARGIN),
        right: chosen_margin(cli.margin_right, cli.margin, DEFAULT_RIGHT_MARGIN),
        bottom: chosen_margin(cli.margin_bottom, cli.margin, DEFAULT_BOTTOM_MARGIN),
        left: chosen_margin(cli.margin_left, cli.margin, DEFAULT_LEFT_MARGIN),
    }
}

/// The margin of one edge, by the rule of `chosen_margin`.
pub fn choose_margin(own: Option<i32>, all: Option<i32>, default: i32) -> (m: i32)
    ensures
        m == chosen_margin(own, all, default),
{
    match own {
        Some(m) => m,
        None => match all {
            Some(m) => m,
            None => default,
        },
    }
}

impl From<CliArgs> for Options {
    fn from(cli: CliArgs) -> (options: Self) {
        let margin = cli.margin;
        Options {
            text: WatermarkText { line1: cli.line1, line2: cli.line2 },
            corner: cli.corner,
            margins: Margins {
                top: choose_margin(cli.margin_top, margin, DEFAULT_TOP_MARGIN),
                right: choose_margin(cli.margin_right, margin, DEFAULT_RIGHT_MARGIN),
                bottom: choose_margin(cli.margin_bottom, margin, DEFAULT_BOTTOM_MARGIN),
                left: choose_margin(cli.margin_left, margin, DEFAULT_LEFT_MARGIN),
            },
            color: cli.color,
        }
    }
}

impl FromSpecImpl<CliArgs> for Options {
    open spec fn obeys_from_spec() -> bool {
        true
    }

    open spec fn from_spec(cli: CliArgs) -> Options {
        Options {
            text: WatermarkText { line1: cli.line1, line2: cli.line2 },
            corner: cli.corner,
            margins: resolved_margins(cli),
            color: cli.color,
        }
    }
}

/// An edge's own margin option wins over the option for all edges, which
/// wins over the default.
pub proof fn lemma_margin_precedence(own: Option<i32>, all: Option<i32>, default: i32)
    ensures
        own is Some ==> chosen_margin(own, all, default) == own->0,
        own is None && all is Some ==> chosen_margin(own, all, default) == all->0,
        own is None && all is None ==> chosen_margin(own, all, default) == default,
{
}

/// The settings that `Options::from` returns for `cli` (its contract is
/// `ret == from_spec(cli)`).
pub open spec fn options_of(cli: CliArgs) -> Options {
    <Options as FromSpec<CliArgs>>::from_spec(cli)
}

/// On every edge, the edge's own margin option wins; without it the option
/// for all edges applies; without both, the margin is 50 pixels at the top
/// and bottom and 80 pixels at the left and right.
pub proof fn lemma_edge_margins_from_arguments(cli: CliArgs)
    ensures
        <Options as FromSpec<CliArgs>>::obeys_from_spec(),
        cli.margin_top matches Some(m) ==> options_of(cli).margins.top == m,
        cli.margin_right matches Some(m) ==> options_of(cli).margins.right == m,
        cli.margin_bottom matches Some(m) ==> options_of(cli).margins.bottom == m,
        cli.margin_left matches Some(m) ==> options_of(cli).margins.left == m,
        cli.margin_top is None ==> (cli.margin matches Some(m) ==> options_of(cli).margins.top == m),
        cli.margin_right is None ==> (cli.margin matches Some(m) ==> options_of(cli).margins.right == m),
        cli.margin_bottom is None ==> (cli.margin matches Some(m) ==> options_of(cli).margins.bottom == m),
        cli.margin_left is None ==> (cli.margin matches Some(m) ==> options_of(cli).margins.left == m),
        cli.margin_top is None && cli.margin is None ==> options_of(cli).margins.top == 50,
        cli.margin_bottom is None && cli.margin is None ==> options_of(cli).margins.bottom == 50,
        cli.margin_right is None && cli.margin is None ==> options_of(cli).margins.right == 80,
        cli.margin_left is None && cli.margin is None ==> options_of(cli).margins.left == 80,
{
}

/// The corner, the colour and the two lines of text are taken from the
/// arguments unchanged.
pub proof fn lemma_other_settings_pass_through(cli: CliArgs)
    ensures
        options_of(cli).corner == cli.corner,
        options_of(cli).color == cli.color,
        options_of(cli).text.line1 == cli.line1,
        options_of(cli).text.line2 == cli.line2,
{
}

} // verus!
