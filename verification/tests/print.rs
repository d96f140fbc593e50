use termrender::game::screen::{CursorMoveTo, Screen, ScreenCommand};
use termrender::math::Vec2;
use termrender::physics::AABB;
use termrender::print::{ansi_to_gcolor, GColor, GameTexture, PrintTypes, TermPrint, RGB};

#[test]
fn tstaastas() {
    println!("{}", "\u{ee54}\u{ee54}\u{ee54}".len())
}

#[test]
fn test() {
    let _t = GameTexture::new(Vec::new());
}

#[test]
fn forr() {
    for x in 0..10 {
        println!("{}", x)
    }
}

fn screen() -> Screen {
    Screen::new("t".to_string(), Vec2::new(80, 24))
}

fn positions(cmds: &[ScreenCommand]) -> Vec<(u16, u16)> {
    let mut v = Vec::new();
    for c in cmds {
        if let ScreenCommand::Cursor(CursorMoveTo::Pos(p)) = c {
            v.push(*p);
        }
    }
    v
}

fn texts(cmds: &[ScreenCommand]) -> Vec<String> {
    let mut v = Vec::new();
    for c in cmds {
        if let ScreenCommand::Print(t) = c {
            v.push(t.text.clone());
        }
    }
    v
}

#[test]
fn ansi_codes() {
    assert_eq!(ansi_to_gcolor(3), GColor::Yellow);
    assert_eq!(ansi_to_gcolor(9), GColor::RGB(255, 0, 0));
    assert_eq!(ansi_to_gcolor(196), GColor::RGB(255, 0, 0));
    assert_eq!(ansi_to_gcolor(21), GColor::RGB(0, 0, 255));
    assert_eq!(ansi_to_gcolor(244), GColor::RGB(128, 128, 128));
    assert_eq!(ansi_to_gcolor(255), GColor::RGB(238, 238, 238));
    let v = RGB::from(21u8);
    assert_eq!((v.r, v.g, v.b, v.res), (0, 0, 255, false));
    let w = RGB::from(232u8);
    assert_eq!((w.r, w.g, w.b), (8, 8, 8));
}

#[test]
fn colour_conversions() {
    assert_eq!(GColor::from(RGB::from((255, 0, 0))), GColor::Red);
    assert_eq!(GColor::from(RGB::from((1, 2, 3))), GColor::RGB(1, 2, 3));
    assert_eq!(GColor::from(RGB::from(true)), GColor::ResetColor);
    assert_eq!(GColor::from((0u8, 128u8, 128u8)), GColor::RGB(0, 128, 128));
    let c = RGB::from_gcolor(GColor::DarkCyan);
    assert_eq!((c.r, c.g, c.b, c.res), (0, 128, 128, false));
    assert_eq!(GColor::from(RGB::from_gcolor(GColor::DarkCyan)), GColor::DarkCyan);
    assert_eq!(GColor::from(RGB::from_gcolor(GColor::RGB(9, 9, 9))), GColor::RGB(9, 9, 9));
    let back = RGB::from_gcolor(GColor::from(RGB::from((1, 2, 3))));
    assert_eq!((back.r, back.g, back.b, back.res), (1, 2, 3, false));
    let back = RGB::from_gcolor(GColor::from(RGB::from((255, 255, 0))));
    assert_eq!((back.r, back.g, back.b, back.res), (255, 255, 0, false));
    assert_eq!(GColor::from(RGB::from_gcolor(GColor::RGB(255, 255, 0))), GColor::Yellow);
}

#[test]
fn render_writes_escapes() {
    let t = TermPrint::new("hi", GColor::Red, GColor::Default);
    assert_eq!(t.render(), "\x1b[48;2;255;0;0mhi");
    let u = TermPrint::from(("ok", GColor::Default, GColor::RGB(1, 20, 255)));
    assert_eq!(u.render(), "\x1b[38;2;1;20;255mok");
    let r = TermPrint::from(("x", GColor::ResetColor, GColor::Blue));
    assert_eq!(r.render(), "\x1b[38;2;0;0;255mx");
    assert_eq!(TermPrint::from("plain").render(), "plain");
    assert_eq!(TermPrint::from(("a".to_string(), GColor::Red)).as_plain(), "a");
}

#[test]
fn slanted_lines_follow_bresenham() {
    let mut s = screen();
    let ch = TermPrint::from("#");
    PrintTypes::Line { start: Vec2::new(0, 0), end: Vec2::new(3, 1), char: ch.clone() }.print(&mut s, Vec2::new(0, 0));
    let cmds = s.take_commands();
    assert_eq!(positions(&cmds), vec![(0, 0), (1, 0), (2, 1), (3, 1)]);
    assert_eq!(texts(&cmds), vec!["#", "#", "#", "#"]);

    PrintTypes::Line { start: Vec2::new(0, 0), end: Vec2::new(1, 3), char: ch }.print(&mut s, Vec2::new(10, 10));
    let cmds = s.take_commands();
    assert_eq!(positions(&cmds), vec![(10, 10), (10, 11), (11, 12), (11, 13)]);
}

#[test]
fn straight_lines() {
    let mut s = screen();
    let ch = TermPrint::from(("ab", GColor::Red, GColor::Default));
    PrintTypes::Line { start: Vec2::new(2, 5), end: Vec2::new(2, 3), char: ch.clone() }.print(&mut s, Vec2::new(0, 0));
    let cmds = s.take_commands();
    assert_eq!(cmds.len(), 1 + 3 * 4);
    assert!(matches!(cmds[0], ScreenCommand::Cursor(CursorMoveTo::Pos((2, 3)))));
    assert!(matches!(cmds[3], ScreenCommand::Cursor(CursorMoveTo::Down(1))));
    assert!(matches!(cmds[4], ScreenCommand::Cursor(CursorMoveTo::Left(2))));
    assert_eq!(texts(&cmds), vec!["", "ab", "", "ab", "", "ab"]);

    PrintTypes::Line { start: Vec2::new(4, 1), end: Vec2::new(1, 1), char: ch }.print(&mut s, Vec2::new(0, 0));
    let cmds = s.take_commands();
    assert_eq!(cmds.len(), 2);
    assert!(matches!(cmds[0], ScreenCommand::Cursor(CursorMoveTo::Pos((1, 1)))));
    match &cmds[1] {
        ScreenCommand::Print(t) => {
            assert_eq!(t.text, "ababab");
            assert_eq!(t.background, GColor::Red);
            assert_eq!(t.fore, GColor::White);
        }
        _ => panic!("expected text"),
    }
}

#[test]
fn diagonal_lines() {
    let mut s = screen();
    let ch = TermPrint::from("*");
    PrintTypes::Line { start: Vec2::new(3, 0), end: Vec2::new(0, 3), char: ch }.print(&mut s, Vec2::new(0, 0));
    let cmds = s.take_commands();
    assert_eq!(cmds.len(), 1 + 4 * 2);
    assert!(matches!(cmds[0], ScreenCommand::Cursor(CursorMoveTo::Pos((0, 3)))));
    assert!(matches!(cmds[2], ScreenCommand::Cursor(CursorMoveTo::Up(1))));
    assert!(matches!(cmds[8], ScreenCommand::Cursor(CursorMoveTo::Up(1))));
}

#[test]
fn text_and_squares() {
    let mut s = screen();
    let t = PrintTypes::String { pos: Vec2::new(1, 1), char: TermPrint::from("hey") };
    t.print(&mut s, Vec2::new(2, 3));
    let cmds = s.take_commands();
    assert_eq!(positions(&cmds), vec![(3, 4)]);
    match &cmds[1] {
        ScreenCommand::Print(p) => {
            assert_eq!(p.text, "hey");
            assert_eq!(p.background, GColor::RGB(50, 100, 150));
            assert_eq!(p.fore, GColor::White);
        }
        _ => panic!("expected text"),
    }
    assert!(t.clearself(&mut s, Vec2::new(2, 3), Vec2::new(0, 0)));
    let cmds = s.take_commands();
    assert_eq!(positions(&cmds), vec![(1, 1)]);
    assert_eq!(texts(&cmds), vec!["   "]);

    let sq = PrintTypes::Square { pos: AABB::new(Vec2::new(0, 0), Vec2::new(2, 1)), char: TermPrint::from("o") };
    sq.print(&mut s, Vec2::new(1, 1));
    let cmds = s.take_commands();
    assert_eq!(positions(&cmds), vec![(1, 1), (1, 1), (1, 2)]);
    assert_eq!(texts(&cmds), vec!["oo", "oo"]);
}

#[test]
fn textures_reset_after_each_shape() {
    let mut s = screen();
    let tex = GameTexture::new(vec![
        PrintTypes::String { pos: Vec2::new(0, 0), char: TermPrint::from("a") },
        PrintTypes::default(),
    ]);
    tex.print(&mut s, Vec2::new(5, 5));
    let cmds = s.take_commands();
    assert_eq!(positions(&cmds), vec![(5, 5), (5, 5)]);
    assert_eq!(texts(&cmds), vec!["a", "", " ", ""]);
}

#[test]
fn moved_lines_are_erased_where_drawn() {
    let mut s = screen();
    let line = PrintTypes::Line { start: Vec2::new(0, 0), end: Vec2::new(3, 0), char: TermPrint::from("#") };
    line.print(&mut s, Vec2::new(2, 2));
    let drawn = s.take_commands();
    assert!(line.clearself(&mut s, Vec2::new(4, 4), Vec2::new(2, 2)));
    let cleared = s.take_commands();
    assert_eq!(positions(&drawn), vec![(2, 2)]);
    assert_eq!(positions(&cleared), vec![(2, 2)]);
    assert_eq!(texts(&drawn), vec!["###"]);
    assert_eq!(texts(&cleared), vec!["   "]);

    let column = PrintTypes::Line { start: Vec2::new(0, 0), end: Vec2::new(0, 2), char: TermPrint::from("|") };
    column.print(&mut s, Vec2::new(1, 1));
    let drawn = s.take_commands();
    assert!(column.clearself(&mut s, Vec2::new(5, 1), Vec2::new(1, 1)));
    let cleared = s.take_commands();
    assert_eq!(positions(&drawn), vec![(1, 1)]);
    assert_eq!(positions(&cleared), vec![(1, 1)]);
    assert_eq!(texts(&drawn), vec!["", "|", "", "|", "", "|"]);
    assert_eq!(texts(&cleared), vec![" ", " ", " "]);
}

#[test]
fn text_conversions() {
    let t = TermPrint::from("x");
    assert_eq!((t.text.as_str(), t.background, t.fore), ("x", GColor::Default, GColor::Default));
    let t = TermPrint::from(("x", RGB::from((255, 0, 0))));
    assert_eq!((t.text.as_str(), t.background, t.fore), ("x", GColor::Red, GColor::Default));
    let t = TermPrint::from(("x", (), RGB::from((1, 2, 3))));
    assert_eq!((t.background, t.fore), (GColor::Default, GColor::RGB(1, 2, 3)));
    let t = TermPrint::from(("x", RGB::from((0, 0, 255)), RGB::from(true)));
    assert_eq!((t.background, t.fore), (GColor::Blue, GColor::ResetColor));
    let t = TermPrint::from(("x", GColor::Grey));
    assert_eq!((t.background, t.fore), (GColor::Grey, GColor::Default));
    let t = TermPrint::from(("x", (), GColor::Grey));
    assert_eq!((t.background, t.fore), (GColor::Default, GColor::Grey));
    let t = TermPrint::from(("x", GColor::Red, GColor::Grey));
    assert_eq!((t.text.as_str(), t.background, t.fore), ("x", GColor::Red, GColor::Grey));
}

#[test]
fn raw_text_is_queued_as_is() {
    let mut s = screen();
    s.cursor_queque("abc");
    let cmds = s.take_commands();
    assert!(matches!(&cmds[0], ScreenCommand::Raw(t) if t == "abc"));
}
