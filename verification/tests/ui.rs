use selfsonic::ui::keybindings::{Action, KeyCode, KeyEvent};
use selfsonic::ui::theme::parse_response;

fn key(code: KeyCode) -> KeyEvent {
    KeyEvent::new(code, false)
}

#[test]
fn vim_navigation() {
    assert_eq!(Action::from_key(key(KeyCode::Char('j'))), Some(Action::Down));
    assert_eq!(Action::from_key(key(KeyCode::Char('k'))), Some(Action::Up));
    assert_eq!(Action::from_key(key(KeyCode::Char('g'))), Some(Action::Top));
    assert_eq!(Action::from_key(key(KeyCode::Char('G'))), Some(Action::Bottom));
    assert_eq!(Action::from_key(key(KeyCode::Char(' '))), Some(Action::PlayPause));
    assert_eq!(Action::from_key(key(KeyCode::Char('d'))), Some(Action::DJ));
    assert_eq!(
        Action::from_key(KeyEvent::new(KeyCode::Char('d'), true)),
        Some(Action::PageDown)
    );
}

#[test]
fn favorite_key() {
    assert_eq!(Action::from_key(key(KeyCode::Char('f'))), Some(Action::ToggleFavorite));
}

#[test]
fn special_keys() {
    assert_eq!(Action::from_key(key(KeyCode::Enter)), Some(Action::Select));
    assert_eq!(Action::from_key(key(KeyCode::Esc)), Some(Action::Back));
    assert_eq!(Action::from_key(key(KeyCode::Tab)), Some(Action::NextTab));
}

#[test]
fn parses_st_terminated_responses() {
    let buf = b"\x1b]4;1;rgb:ffff/b4b4/abab\x1b\\\x1b]4;8;rgb:cbcb/c4c4/cfcf\x1b\\\x1b]11;rgb:3232/2f2f/3333\x1b\\";
    let p = parse_response(buf);
    assert_eq!(p.color1, Some((0xff, 0xb4, 0xab)));
    assert_eq!(p.color8, Some((0xcb, 0xc4, 0xcf)));
    assert_eq!(p.bg, Some((0x32, 0x2f, 0x33)));
}

#[test]
fn parses_bel_terminated_responses() {
    let buf = b"\x1b]4;3;rgb:f1f1/b7b7/c2c2\x07\x1b]10;rgb:e7e7/e0e0/e8e8\x07";
    let p = parse_response(buf);
    assert_eq!(p.color3, Some((0xf1, 0xb7, 0xc2)));
    assert_eq!(p.fg, Some((0xe7, 0xe0, 0xe8)));
}

#[test]
fn ignores_garbage_between_responses() {
    let buf = b"\x1b[?1;2c\x1b]4;5;rgb:b2b2/a7a7/bfbf\x1b\\";
    let p = parse_response(buf);
    assert_eq!(p.color5, Some((0xb2, 0xa7, 0xbf)));
}

#[test]
fn readme_keys_map_to_their_actions() {
    let table = [
        (KeyCode::Char('j'), false, Action::Down),
        (KeyCode::Char('k'), false, Action::Up),
        (KeyCode::Char('g'), false, Action::Top),
        (KeyCode::Char('G'), false, Action::Bottom),
        (KeyCode::Char('d'), true, Action::PageDown),
        (KeyCode::Char('u'), true, Action::PageUp),
        (KeyCode::Tab, false, Action::NextTab),
        (KeyCode::BackTab, false, Action::PrevTab),
        (KeyCode::Enter, false, Action::Select),
        (KeyCode::Esc, false, Action::Back),
        (KeyCode::Char(' '), false, Action::PlayPause),
        (KeyCode::Char('n'), false, Action::Next),
        (KeyCode::Char('p'), false, Action::Previous),
        (KeyCode::Char('l'), false, Action::CycleLoop),
        (KeyCode::Char('s'), false, Action::ToggleShuffle),
        (KeyCode::Char('+'), false, Action::VolumeUp),
        (KeyCode::Char('-'), false, Action::VolumeDown),
        (KeyCode::Char('['), false, Action::SeekBackward),
        (KeyCode::Char(']'), false, Action::SeekForward),
        (KeyCode::Char('r'), false, Action::Refresh),
        (KeyCode::Char('q'), false, Action::Quit),
        (KeyCode::Char('q'), true, Action::Quit),
    ];
    for (code, ctrl, action) in table {
        assert_eq!(Action::from_key(KeyEvent::new(code, ctrl)), Some(action));
    }
    assert_eq!(Action::from_key(key(KeyCode::PageDown)), None);
    assert_eq!(Action::from_key(key(KeyCode::Char('c'))), None);
    assert_eq!(Action::from_key(key(KeyCode::Other)), None);
}

#[test]
fn invalid_utf8_answers_are_ignored() {
    let buf = b"\x1b]10;rgb:ffff/ffff/ffff\xff\x1b\\\x1b]11;rgb:1010/2020/3030\x1b\\";
    let p = parse_response(buf);
    assert_eq!(p.fg, None);
    assert_eq!(p.bg, Some((0x10, 0x20, 0x30)));
}
