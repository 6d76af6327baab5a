use magma::render::{
    blend, brand_width, button_layout, content_frame, draw_icon, draw_window_edge, grid_size, indexed_color,
    map_background_color, map_foreground_color, map_palette_color, point_in_button, title_hit_test, Canvas, CellColor,
    Dock, Rect, TitleBarAction,
};
use magma::theme::{palette, term_red, ThemeMode};

fn canvas(w: usize, h: usize) -> Canvas {
    Canvas::new(vec![0; w * h], w, h)
}

#[test]
fn pixels_outside_are_ignored() {
    let mut c = canvas(4, 3);
    assert_eq!(c.pixel_index(3, 2), Some(11));
    assert_eq!(c.pixel_index(4, 0), None);
    assert_eq!(c.pixel_index(-1, 0), None);
    c.set_pixel(-1, 0, 5);
    c.set_pixel(1, 2, 5);
    assert_eq!(c.pixels.iter().filter(|p| **p == 5).count(), 1);
    assert_eq!(c.pixels[9], 5);
}

#[test]
fn rectangles_are_clipped() {
    let mut c = canvas(4, 3);
    c.draw_rect(1, 1, 2, 1, 7);
    assert_eq!(c.pixels, vec![0, 0, 0, 0, 0, 7, 7, 0, 0, 0, 0, 0]);
    c.draw_rect(-2, 2, 3, 5, 8);
    assert_eq!(c.pixels[8], 8);
    assert_eq!(c.pixels[9], 0);
}

#[test]
fn blending_mixes_channels() {
    assert_eq!(blend(0x000000, 0xFFFFFF, 255), 0xFFFFFF);
    assert_eq!(blend(0x123456, 0xFFFFFF, 0), 0x123456);
    assert_eq!(blend(0x00FF0000, 0x000000FF, 128), 0x7F0080);
    let mut c = canvas(2, 1);
    c.pixels[0] = 0x00FF0000;
    c.blend_pixel(0, 0, 0x000000FF, 128);
    c.blend_pixel(5, 0, 0x000000FF, 128);
    assert_eq!(c.pixels, vec![0x7F0080, 0]);
}

#[test]
fn glyph_bitmaps_blend_by_coverage() {
    let mut c = canvas(3, 2);
    c.draw_bitmap(1, 0, 2, 2, &[255, 0, 128, 7], 0x00FFFFFF);
    assert_eq!(c.pixels[1], 0xFFFFFF);
    assert_eq!(c.pixels[2], 0);
    assert_eq!(c.pixels[4], 0x808080);
}

#[test]
fn lines_follow_bresenham() {
    let mut c = canvas(4, 3);
    c.draw_line(0, 0, 3, 2, 1);
    let lit: Vec<usize> = (0..12).filter(|i| c.pixels[*i] == 1).collect();
    assert_eq!(lit, vec![0, 5, 6, 11]);
    let mut d = canvas(3, 3);
    d.draw_line(2, 2, 2, 0, 4);
    assert_eq!(d.pixels, vec![0, 0, 4, 0, 0, 4, 0, 0, 4]);
}

#[test]
fn rounded_rectangles_cut_corners() {
    let mut c = canvas(8, 8);
    c.draw_rounded_rect(0, 0, 8, 8, 4, 9);
    assert_eq!(c.pixels[0], 0);
    assert_eq!(c.pixels[1], 9);
    assert_eq!(c.pixels[3 * 8 + 3], 9);
    assert_eq!(c.pixels[4], 0);
    assert_eq!(c.pixels[7], 9);
    let mut d = canvas(4, 4);
    d.draw_rounded_rect(0, 0, 4, 4, 0, 2);
    assert!(d.pixels.iter().all(|p| *p == 2));
}

#[test]
fn window_edge_outlines_the_canvas() {
    let mut c = canvas(3, 3);
    draw_window_edge(&mut c, 6);
    assert_eq!(c.pixels, vec![6, 6, 6, 6, 0, 6, 6, 6, 6]);
}

#[test]
fn dock_layout_and_hits() {
    let mut dock = Dock::new();
    assert_eq!(dock.options[0].label, "Terminal");
    assert_eq!(dock.options[1].label, "Log");
    let pill = dock.layout(800, 600, 0);
    assert_eq!(pill, Rect { x: 304, y: 532, w: 192, h: 44 });
    assert_eq!(dock.options[0].bounds, Rect { x: 310, y: 538, w: 90, h: 32 });
    assert_eq!(dock.options[1].bounds, Rect { x: 400, y: 538, w: 90, h: 32 });
    assert_eq!(dock.hit_test(350, 540), Some(0));
    assert_eq!(dock.hit_test(400, 569), Some(1));
    assert_eq!(dock.hit_test(400, 570), None);
    dock.update_hover(450, 545);
    assert_eq!(dock.hovered_index, Some(1));
    dock.set_active(1);
    assert_eq!(dock.active_index, 1);
    dock.set_active(7);
    assert_eq!(dock.active_index, 1);
    let lifted = dock.layout(801, 600, -2);
    assert_eq!(lifted.x, 304);
    assert_eq!(lifted.y, 530);
    assert!(Rect { x: 0, y: 0, w: 2, h: 2 }.contains(1, 1));
    assert!(!Rect { x: 0, y: 0, w: 2, h: 2 }.contains(2, 1));
}

#[test]
fn title_bar_buttons() {
    let b = button_layout(400);
    assert_eq!((b[0].x, b[0].y, b[0].action), (354, 8, TitleBarAction::Close));
    assert_eq!((b[1].x, b[1].action), (286, TitleBarAction::Minimize));
    assert_eq!((b[2].x, b[2].action), (320, TitleBarAction::Maximize));
    assert!(point_in_button(354, 8, b[0]));
    assert!(!point_in_button(388, 8, b[0]));
    assert_eq!(title_hit_test(360, 10, 400), TitleBarAction::Close);
    assert_eq!(title_hit_test(330, 31, 400), TitleBarAction::Maximize);
    assert_eq!(title_hit_test(300, 20, 400), TitleBarAction::Minimize);
    assert_eq!(title_hit_test(300, 32, 400), TitleBarAction::Drag);
    assert_eq!(title_hit_test(10, 10, 400), TitleBarAction::Drag);
    assert_eq!(title_hit_test(10, 40, 400), TitleBarAction::Outside);
    assert_eq!(title_hit_test(10, -1, 400), TitleBarAction::Outside);
    assert_eq!(brand_width(100, 800), 172);
    assert_eq!(brand_width(10, 800), 124);
    assert_eq!(brand_width(1000, 400), 238);
    assert_eq!(brand_width(1000, 100), 124);
}

#[test]
fn frames_and_grids() {
    let f = content_frame(800, 600);
    assert_eq!((f.x, f.y, f.width, f.height), (20, 58, 760, 522));
    let small = content_frame(10, 10);
    assert_eq!((small.width, small.height), (0, 0));
    assert_eq!(grid_size(800, 600, 10, 20), (76, 26));
    assert_eq!(grid_size(10, 10, 0, 0), (1, 1));
    assert_eq!(grid_size(u32::MAX, 100, 1, 1), (u16::MAX, 22));
    assert_eq!(grid_size(800, 70, 10, 20), (76, 1));
}

#[test]
fn terminal_colours() {
    let p = palette(ThemeMode::Dark);
    assert_eq!(indexed_color(&p, 196), 0xFF0000);
    assert_eq!(indexed_color(&p, 16), 0x000000);
    assert_eq!(indexed_color(&p, 17), 0x00005F);
    assert_eq!(indexed_color(&p, 232), 0x080808);
    assert_eq!(indexed_color(&p, 255), 0xEEEEEE);
    assert_eq!(indexed_color(&p, 9), term_red(&p));
    assert_eq!(map_palette_color(&p, CellColor::Rgb(1, 2, 3)), 0x010203);
    assert_eq!(map_palette_color(&p, CellColor::LightRed), term_red(&p));
    assert_eq!(map_foreground_color(&p, CellColor::Reset), p.text_primary);
    assert_eq!(map_background_color(&p, CellColor::Reset), p.bg_primary);
}

#[test]
fn icons_are_scaled_to_sixteen() {
    let mut c = canvas(20, 40);
    let rgba = vec![255u8, 0, 0, 255];
    draw_icon(&mut c, &rgba, 1, 1, 2);
    let painted = c.pixels.iter().filter(|p| **p == 0xFF0000).count();
    assert_eq!(painted, 256);
    assert_eq!(c.pixels[12 * 20 + 2], 0xFF0000);
    assert_eq!(c.pixels[12 * 20 + 1], 0);
    let mut d = canvas(20, 40);
    draw_icon(&mut d, &[255u8, 0, 0], 1, 1, 0);
    assert!(d.pixels.iter().all(|p| *p == 0));
}

#[test]
fn dock_pill_and_tabs() {
    let p = palette(ThemeMode::Dark);
    let mut c = canvas(800, 600);
    let mut dock = Dock::new();
    let pill = dock.draw(&mut c, 800, 600, 0);
    assert_eq!(pill, Rect { x: 304, y: 532, w: 192, h: 44 });
    assert_eq!(c.pixels[550 * 800 + 400], 0x1A1A1A);
    assert_eq!(c.pixels[534 * 800 + 400], 0x2E2E2E);
    assert_eq!(c.pixels[10 * 800 + 10], 0);
    let first = dock.draw_tab(&mut c, 0, &p, 60);
    assert_eq!(c.pixels[550 * 800 + 355], 0x33FF4D4D);
    assert_eq!((first.text, first.x, first.y, first.color, first.bold), ("Terminal", 325, 546, p.bg_primary, true));
    dock.update_hover(450, 550);
    let second = dock.draw_tab(&mut c, 1, &p, 100);
    assert_eq!(c.pixels[550 * 800 + 445], 0x2A2A2A);
    assert_eq!((second.text, second.x, second.color, second.bold), ("Log", 395, p.text_primary, false));
}

use magma::render::{draw_border_symbol, draw_control_button, draw_workspace_shell, ContentFrame, ControlButton, ControlGlyph};
use magma::theme::terminal_palette;

#[test]
fn workspace_shell_layers() {
    let p = palette(ThemeMode::Dark);
    let mut c = canvas(100, 100);
    let frame = ContentFrame { x: 10, y: 10, width: 80, height: 80 };
    draw_workspace_shell(&mut c, frame, false, &p);
    assert_eq!(c.pixels[50 * 100 + 50], p.surface_base);
    assert_eq!(c.pixels[10 * 100 + 50], p.border_strong);
    assert_eq!(c.pixels[24 * 100 + 50], p.border_strong);
    assert_eq!(c.pixels[5 * 100 + 5], 0);
    let mut d = canvas(20, 20);
    draw_workspace_shell(&mut d, ContentFrame { x: 0, y: 0, width: 0, height: 5 }, true, &p);
    assert!(d.pixels.iter().all(|px| *px == 0));
}

#[test]
fn box_drawing_symbols() {
    let mut c = canvas(5, 5);
    assert!(draw_border_symbol(&mut c, "\u{2500}", 0, 0, 5, 5, 3));
    assert_eq!(&c.pixels[10..15], &[3, 3, 3, 3, 3]);
    assert_eq!(c.pixels.iter().filter(|p| **p == 3).count(), 5);
    let mut d = canvas(5, 5);
    assert!(draw_border_symbol(&mut d, "\u{250C}", 0, 0, 5, 5, 4));
    assert_eq!(d.pixels[2 * 5 + 2], 4);
    assert_eq!(d.pixels[2 * 5 + 4], 4);
    assert_eq!(d.pixels[4 * 5 + 2], 4);
    assert_eq!(d.pixels[0], 0);
    assert_eq!(d.pixels[2 * 5 + 1], 0);
    let mut e = canvas(5, 5);
    assert!(!draw_border_symbol(&mut e, "x", 0, 0, 5, 5, 4));
    assert!(e.pixels.iter().all(|p| *p == 0));
}

#[test]
fn window_buttons() {
    let p = palette(ThemeMode::Dark);
    let mut c = canvas(60, 40);
    let button = ControlButton { x: 0, y: 0, action: TitleBarAction::Minimize };
    draw_control_button(&mut c, button, None, ControlGlyph::Minimize, 7, 8, &p);
    let lit: Vec<usize> = (0..c.pixels.len()).filter(|i| c.pixels[*i] == 8).collect();
    assert_eq!(lit.len(), 9);
    assert_eq!(lit[0], 13 * 60 + 13);
    let mut d = canvas(60, 40);
    let close = ControlButton { x: 0, y: 0, action: TitleBarAction::Close };
    draw_control_button(&mut d, close, Some(TitleBarAction::Close), ControlGlyph::Close, 7, 8, &p);
    assert_eq!(d.pixels[2 * 60 + 2], p.accent);
    assert_eq!(d.pixels[8 * 60 + 13], p.bg_primary);
}

#[test]
fn terminal_palettes() {
    let t = terminal_palette(ThemeMode::Dark);
    assert_eq!(t.foreground, 0x00F3F3EF);
    assert_eq!(t.background, 0);
    assert_eq!(t.ansi[1], 0x00FF4D4D);
    let n = terminal_palette(ThemeMode::Nord);
    assert_eq!(n.ansi[7], 0x00ECEFF4);
}

use magma::render::{draw_titlebar, TitleText};

#[test]
fn title_bar_layers() {
    let p = palette(ThemeMode::Dark);
    let mut c = canvas(400, 60);
    let t = draw_titlebar(&mut c, 400, 0, None, true, &[0, 0, 0, 0], 1, 1, &p);
    assert_eq!(t, TitleText { x: 62, y: 12, color: p.text_primary });
    let at = |c: &Canvas, x: usize, y: usize| c.pixels[y * 400 + x];
    assert_eq!(at(&c, 0, 0), p.bg_titlebar);
    assert_eq!(at(&c, 200, 39), p.border_strong);
    assert_eq!(at(&c, 200, 45), 0);
    assert_eq!(at(&c, 76, 8), p.border_strong);
    assert_eq!(at(&c, 76, 20), p.surface_base);
    assert_eq!(at(&c, 51, 20), p.border_strong);
    assert_eq!(at(&c, 145, 20), p.bg_titlebar);
    assert_eq!(at(&c, 357, 9), p.bg_titlebar);
    let inactive = draw_titlebar(&mut canvas(400, 60), 400, 0, None, false, &[0, 0, 0, 0], 1, 1, &p);
    assert_eq!(inactive.color, p.text_secondary);
}

#[test]
fn long_lines_are_clipped_to_the_canvas() {
    let mut c = canvas(4, 3);
    c.draw_line(-200_000, 1, 3, 1, 6);
    assert_eq!(c.pixels, vec![0, 0, 0, 0, 6, 6, 6, 6, 0, 0, 0, 0]);
    let mut d = canvas(3, 3);
    d.draw_line(0, -100_000, 0, 100_000, 2);
    assert_eq!(d.pixels, vec![2, 0, 0, 2, 0, 0, 2, 0, 0]);
}
