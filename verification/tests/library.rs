use activate_linux::color::{parse_color, Color, ColorError};
use activate_linux::options::{CliArgs, Options};
use activate_linux::outputs::{plan_output_bindings, GlobalEntry, OutputBinding, SetupError};
use activate_linux::overlay::{buffer_size, OverlayAction, OverlayState, Overlays, SurfaceEvent};
use activate_linux::placement::{layer_surface_margins, visual_margin, Corner, Edges, Margins};

fn rgb(red: u8, green: u8, blue: u8) -> Color {
    Color { red, green, blue }
}

fn cli(margin: Option<i32>, top: Option<i32>, right: Option<i32>, bottom: Option<i32>, left: Option<i32>) -> CliArgs {
    CliArgs {
        corner: Corner::BottomRight,
        margin,
        margin_top: top,
        margin_right: right,
        margin_bottom: bottom,
        margin_left: left,
        color: rgb(255, 255, 255),
        line1: "Activate Linux".to_string(),
        line2: "Go to Settings to activate Linux.".to_string(),
    }
}

fn margins(top: i32, right: i32, bottom: i32, left: i32) -> Margins {
    Margins { top, right, bottom, left }
}

#[test]
fn color_long_forms() {
    assert_eq!(parse_color("#ffcc00"), Ok(rgb(0xff, 0xcc, 0x00)));
    assert_eq!(parse_color("ffcc00"), Ok(rgb(0xff, 0xcc, 0x00)));
    assert_eq!(parse_color("#12AbEf"), Ok(rgb(0x12, 0xab, 0xef)));
    assert_eq!(parse_color("000000"), Ok(rgb(0, 0, 0)));
}

#[test]
fn color_short_forms_double_each_digit() {
    assert_eq!(parse_color("#fff"), Ok(rgb(255, 255, 255)));
    assert_eq!(parse_color("fa0"), Ok(rgb(0xff, 0xaa, 0x00)));
    assert_eq!(parse_color("#1c9"), parse_color("#11cc99"));
}

#[test]
fn color_hash_is_optional() {
    assert_eq!(parse_color("#abcdef"), parse_color("abcdef"));
    assert_eq!(parse_color("#abc"), parse_color("abc"));
}

#[test]
fn color_wrong_length() {
    assert_eq!(parse_color(""), Err(ColorError::Length));
    assert_eq!(parse_color("#"), Err(ColorError::Length));
    assert_eq!(parse_color("#ab"), Err(ColorError::Length));
    assert_eq!(parse_color("abcd"), Err(ColorError::Length));
    assert_eq!(parse_color("##fff"), Err(ColorError::Length));
    assert_eq!(parse_color("#1234567"), Err(ColorError::Length));
}

#[test]
fn color_bad_digits() {
    assert_eq!(parse_color("ggg"), Err(ColorError::Digit));
    assert_eq!(parse_color("#12345z"), Err(ColorError::Digit));
    assert_eq!(parse_color("+ab"), Err(ColorError::Digit));
    assert_eq!(parse_color("-abcde"), Err(ColorError::Digit));
    assert_eq!(parse_color("#\u{e9}a"), Err(ColorError::Digit));
}

#[test]
fn color_plus_sign_is_not_a_digit() {
    assert_eq!(parse_color("+abcde"), Err(ColorError::Digit));
    assert_eq!(parse_color("#+00001"), Err(ColorError::Digit));
}

#[test]
fn color_error_messages() {
    assert_eq!(ColorError::Length.message(), "expected #RGB, #RRGGBB, RGB, or RRGGBB");
    assert_eq!(ColorError::Digit.message(), "invalid hex color");
}

#[test]
fn default_margins_mimic_windows() {
    let options = Options::from(cli(None, None, None, None, None));
    assert_eq!(options.margins, margins(50, 80, 50, 80));
    assert_eq!(options.corner, Corner::BottomRight);
    assert_eq!(options.text.line1, "Activate Linux");
    assert_eq!(options.text.line2, "Go to Settings to activate Linux.");
    assert_eq!(options.color, rgb(255, 255, 255));
}

#[test]
fn margin_option_sets_every_edge() {
    let options = Options::from(cli(Some(32), None, None, None, None));
    assert_eq!(options.margins, margins(32, 32, 32, 32));
}

#[test]
fn edge_margin_wins_over_margin_option() {
    let options = Options::from(cli(Some(32), Some(1), None, Some(-3), None));
    assert_eq!(options.margins, margins(1, 32, -3, 32));
    let options = Options::from(cli(None, None, Some(7), None, Some(9)));
    assert_eq!(options.margins, margins(50, 7, 50, 9));
}

#[test]
fn corners_anchor_two_edges() {
    let e = |top, right, bottom, left| Edges { top, right, bottom, left };
    assert_eq!(Corner::TopLeft.anchor(), e(true, false, false, true));
    assert_eq!(Corner::TopRight.anchor(), e(true, true, false, false));
    assert_eq!(Corner::BottomLeft.anchor(), e(false, false, true, true));
    assert_eq!(Corner::BottomRight.anchor(), e(false, true, true, false));
}

#[test]
fn layer_margins_keep_anchored_edges() {
    let m = margins(1, 2, 3, 4);
    assert_eq!(Corner::TopLeft.layer_margins(&m), margins(1, 0, 0, 4));
    assert_eq!(Corner::TopRight.layer_margins(&m), margins(1, 2, 0, 0));
    assert_eq!(Corner::BottomLeft.layer_margins(&m), margins(0, 0, 3, 4));
    assert_eq!(Corner::BottomRight.layer_margins(&m), margins(0, 2, 3, 0));
}

#[test]
fn visual_margin_takes_out_padding() {
    assert_eq!(visual_margin(32), 28);
    assert_eq!(visual_margin(0), -4);
    assert_eq!(visual_margin(i32::MIN + 4), i32::MIN);
    assert_eq!(visual_margin(32) + 4, 32);
}

#[test]
fn layer_surface_margins_of_default_corner() {
    let m = margins(50, 80, 50, 80);
    assert_eq!(layer_surface_margins(Corner::BottomRight, &m), margins(-4, 76, 46, -4));
    assert_eq!(layer_surface_margins(Corner::TopLeft, &m), margins(46, -4, -4, 76));
}

#[test]
fn new_overlay_is_unconfigured_at_scale_one() {
    let mut overlays = Overlays::new();
    assert_eq!(overlays.len(), 0);
    assert_eq!(overlays.add(), 0);
    assert_eq!(overlays.add(), 1);
    assert_eq!(overlays.len(), 2);
    assert_eq!(overlays.scale(1), 1);
    assert!(!overlays.is_configured(1));
}

#[test]
fn configure_marks_configured_and_draws() {
    let mut overlays = Overlays::new();
    overlays.add();
    assert_eq!(overlays.surface_event(0, SurfaceEvent::Configure), OverlayAction::Draw);
    assert!(overlays.is_configured(0));
    assert_eq!(overlays.surface_event(0, SurfaceEvent::Configure), OverlayAction::Draw);
}

#[test]
fn closed_surface_exits() {
    let mut overlays = Overlays::new();
    overlays.add();
    assert_eq!(overlays.surface_event(0, SurfaceEvent::Closed), OverlayAction::Exit);
    assert_eq!(overlays.surface_event(0, SurfaceEvent::Other), OverlayAction::Nothing);
    assert!(!overlays.is_configured(0));
}

#[test]
fn scale_change_before_configure_is_not_drawn() {
    let mut overlays = Overlays::new();
    overlays.add();
    assert_eq!(overlays.output_scale(0, 2), OverlayAction::Nothing);
    assert_eq!(overlays.scale(0), 2);
    assert_eq!(overlays.surface_event(0, SurfaceEvent::Configure), OverlayAction::Draw);
    assert_eq!(overlays.scale(0), 2);
}

#[test]
fn scale_change_after_configure_is_drawn_once() {
    let mut overlays = Overlays::new();
    overlays.add();
    overlays.surface_event(0, SurfaceEvent::Configure);
    assert_eq!(overlays.output_scale(0, 3), OverlayAction::Draw);
    assert_eq!(overlays.output_scale(0, 3), OverlayAction::Nothing);
    assert_eq!(overlays.scale(0), 3);
}

#[test]
fn small_scale_factors_count_as_one() {
    let mut overlays = Overlays::new();
    overlays.add();
    overlays.surface_event(0, SurfaceEvent::Configure);
    assert_eq!(overlays.output_scale(0, 0), OverlayAction::Nothing);
    assert_eq!(overlays.output_scale(0, -5), OverlayAction::Nothing);
    assert_eq!(overlays.scale(0), 1);
    assert_eq!(overlays.output_scale(0, 2), OverlayAction::Draw);
    assert_eq!(overlays.output_scale(0, -1), OverlayAction::Draw);
    assert_eq!(overlays.scale(0), 1);
}

#[test]
fn scale_of_unknown_overlay_is_ignored() {
    let mut overlays = Overlays::new();
    overlays.add();
    assert_eq!(overlays.output_scale(5, 2), OverlayAction::Nothing);
    assert_eq!(overlays.len(), 1);
    assert_eq!(overlays.scale(0), 1);
}

#[test]
fn rescale_leaves_other_overlays() {
    let mut overlays = Overlays::new();
    overlays.add();
    overlays.add();
    overlays.surface_event(1, SurfaceEvent::Configure);
    assert_eq!(overlays.output_scale(1, 2), OverlayAction::Draw);
    assert_eq!(overlays.scale(0), 1);
    assert!(!overlays.is_configured(0));
    let _ = OverlayState { scale: 1, configured: false };
}

#[test]
fn buffer_size_scales_logical_size() {
    assert_eq!(buffer_size(200, 60, 2), (400, 120));
    assert_eq!(buffer_size(1, 1, 1), (1, 1));
}

fn global(name: &str, version: u32) -> GlobalEntry {
    GlobalEntry { interface: name.to_string(), version }
}

#[test]
fn outputs_are_numbered_in_order() {
    let globals = vec![
        global("wl_compositor", 6),
        global("wl_output", 4),
        global("wl_shm", 1),
        global("wl_output", 2),
    ];
    let plan = plan_output_bindings(&globals, &"wl_output".to_string(), 3).unwrap();
    assert_eq!(
        plan,
        vec![
            OutputBinding { global: 1, index: 0, version: 3 },
            OutputBinding { global: 3, index: 1, version: 2 },
        ]
    );
}

#[test]
fn no_outputs_is_an_error() {
    let globals = vec![global("wl_compositor", 6), global("wl_shm", 1)];
    let plan = plan_output_bindings(&globals, &"wl_output".to_string(), 4);
    assert_eq!(plan, Err(SetupError::NoOutputs));
    assert_eq!(
        SetupError::NoOutputs.message(),
        "compositor did not advertise any wl_output globals"
    );
    assert_eq!(plan_output_bindings(&Vec::new(), &"wl_output".to_string(), 4), Err(SetupError::NoOutputs));
}

#[test]
fn closed_surface_of_unknown_index_exits() {
    let mut overlays = Overlays::new();
    assert_eq!(overlays.surface_event(3, SurfaceEvent::Closed), OverlayAction::Exit);
    assert_eq!(overlays.surface_event(3, SurfaceEvent::Other), OverlayAction::Nothing);
    assert_eq!(overlays.len(), 0);
}
