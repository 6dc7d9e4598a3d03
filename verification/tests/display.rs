use synesthesia::cli::{DisplayMode, Theme, ViewKind};
use synesthesia::controls::{key_action, next_theme, other_mode, Key, KeyAction};
use synesthesia::render::xterm256_index;
use synesthesia::source::stable_hash;
use synesthesia::view::{grid_text, short_mode, short_view, status_row, tcp_visual, ProcSourceStatus, TcpVisual};

#[test]
fn xterm256_palette_maps_grays_to_the_ramp_and_colors_to_the_cube() {
    assert_eq!(xterm256_index(255, 255, 255), 255);
    assert_eq!(xterm256_index(0, 0, 0), 232);
    assert_eq!(xterm256_index(255, 0, 0), 196);
    assert!((232..=255).contains(&xterm256_index(128, 128, 128)));
    assert!((16..=231).contains(&xterm256_index(10, 200, 90)));
}

#[test]
fn status_names_are_short_and_tcp_categories_have_visuals() {
    assert_eq!(short_view(ViewKind::Weather), "w");
    assert_eq!(short_view(ViewKind::Waterfall), "f");
    assert_eq!(short_mode(DisplayMode::Ansi), "ansi");
    assert_eq!(short_mode(DisplayMode::Ascii), "ascii");
    assert_eq!(tcp_visual(stable_hash(b"tcp.retransmit")), Some(TcpVisual::Retransmit));
    assert_eq!(tcp_visual(stable_hash(b"tcp.reset.send")), Some(TcpVisual::ResetSent));
    assert_eq!(tcp_visual(stable_hash(b"tcp.reset.receive")), Some(TcpVisual::ResetReceived));
    assert_eq!(tcp_visual(stable_hash(b"tcp")), None);
    assert_eq!(ProcSourceStatus::default().interval_ms, 0);
}

#[test]
fn keys_map_to_their_actions() {
    assert_eq!(key_action(Key::Esc, false, true), Some(KeyAction::Quit));
    assert_eq!(key_action(Key::Char('c'), true, true), Some(KeyAction::Quit));
    assert_eq!(key_action(Key::Char('c'), false, true), Some(KeyAction::NextTheme));
    assert_eq!(key_action(Key::Char('a'), false, false), None);
    assert_eq!(key_action(Key::Char('a'), false, true), Some(KeyAction::ToggleMode));
    assert_eq!(key_action(Key::Char('2'), false, true), Some(KeyAction::ShowView(ViewKind::Waterfall)));
    assert_eq!(key_action(Key::Char('='), false, true), Some(KeyAction::RaiseGain));
    assert_eq!(key_action(Key::Other, false, true), None);
    let mut theme = Theme::Phosphor;
    for _ in 0..4 {
        theme = next_theme(theme);
    }
    assert_eq!(theme, Theme::Phosphor);
    assert_eq!(next_theme(Theme::Cold), Theme::Monochrome);
    assert_eq!(other_mode(DisplayMode::Ansi), DisplayMode::Ascii);
}

#[test]
fn status_row_keeps_printable_ascii_up_to_the_width() {
    assert_eq!(status_row(" status", 20), vec![' ', 's', 't', 'a', 't', 'u', 's']);
    assert_eq!(status_row("a\x1b[31mb\tc\u{e9}d~\x7f", 20), "a[31mbcd~".chars().collect::<Vec<_>>());
    assert_eq!(status_row("abcdef", 3), vec!['a', 'b', 'c']);
    assert!(status_row("abc", 0).is_empty());
}

#[test]
fn grid_text_trims_rows_and_joins_them_with_newlines() {
    let mut glyphs = vec![' '; 5 * 3];
    glyphs[1] = '*';
    glyphs[5 + 4] = '#';
    for (x, c) in status_row(" ok", 5).into_iter().enumerate() {
        glyphs[10 + x] = c;
    }
    let text = grid_text(5, 3, &glyphs);
    assert_eq!(text, " *\n    #\n ok");
    assert!(text.bytes().all(|b| b == b'\n' || (b' '..=b'~').contains(&b)));
    assert_eq!(grid_text(4, 0, &Vec::new()), "");
    assert_eq!(grid_text(0, 2, &Vec::new()), "\n");
}
