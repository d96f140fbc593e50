use std::time::Duration;
use termrender::components::{Attribute, Components};
use termrender::game::input::{Input, KeyCode, KeyEventKind, Keys};
use termrender::game::screen::{CursorMoveTo, Screen, ScreenCommand};
use termrender::game::systems::{SignalPayload, SystemBuilder, SystemError, Systems};
use termrender::game::{apply_resize, FlagSet, Flags, TitleUpdate, World};
use termrender::gameobject::{ObjectBuilder, ObjectHeader, ShouldRender};
use termrender::math::Vec2;
use termrender::print::{GColor, GameTexture, PrintTypes, TermPrint};

fn screen() -> Screen {
    Screen::new("game".to_string(), Vec2::new(80, 24))
}

fn sprite(x: i32, y: i32) -> ObjectBuilder {
    let tex = GameTexture::new(vec![PrintTypes::String { pos: Vec2::new(0, 0), char: TermPrint::from("@") }]);
    ObjectBuilder::new()
        .with_attribute(Attribute::Location(Vec2::new(x, y)))
        .with_attribute(Attribute::Texture(tex))
}

#[test]
fn object_render_cycle() {
    let mut out = screen();
    let mut o: ObjectHeader = sprite(5, 5).build();
    assert_eq!(o.get_cords(), Some(Vec2::new(5, 5)));
    assert_eq!(o.should_render(), ShouldRender::Changed);
    assert!(o.print(&mut out));
    assert!(o.is_printed());
    assert_eq!(o.should_render(), ShouldRender::Unchanged);
    o.set_cords(5, 5);
    assert_eq!(o.should_render(), ShouldRender::Unchanged);
    o.set_cords(6, 5);
    assert_eq!(o.get_cords(), Some(Vec2::new(6, 5)));
    assert_eq!(o.should_render(), ShouldRender::Changed);
    o.force_rerender();
    assert_eq!(o._should_render(), ShouldRender::ForceRerender);
    assert_eq!(o.should_render(), ShouldRender::Changed);
    let _ = out.take_commands();
    o.clearself(&mut out);
    assert!(!o.is_printed());
    let cmds = out.take_commands();
    assert!(matches!(cmds[0], ScreenCommand::Cursor(CursorMoveTo::Pos((5, 5)))));
}

#[test]
fn hidden_and_bare_objects() {
    let mut out = screen();
    let mut hidden = sprite(1, 1).with_attribute(Attribute::Render(false)).build();
    assert_eq!(hidden.should_render(), ShouldRender::Disabled);
    hidden.print(&mut out);
    assert_eq!(hidden.should_render(), ShouldRender::Clear);
    let mut bare = ObjectBuilder::new().with_attribute(Attribute::Location(Vec2::new(1, 1))).build();
    assert_eq!(bare.should_render(), ShouldRender::Disabled);
    let _ = out.take_commands();
    assert!(!bare.print(&mut out));
    assert!(out.take_commands().is_empty());
}

#[test]
fn world_queries() {
    let mut w = World::new();
    let a = w.insert_object_head(sprite(0, 0).with_component(Components::Player).build());
    let b = w.insert_object_head(
        sprite(1, 0).with_component(Components::Player).with_component(Components::Wall).with_component(Components::Player).build(),
    );
    let c = w.insert_object_head(sprite(2, 0).with_component(Components::Wall).build());
    assert_eq!((a, b, c), (0, 1, 2));
    assert_eq!(w.objects[1].components.len(), 2);
    assert_eq!(w.objects[2].id, 2);
    assert_eq!(w.get_with_component(&Components::Player), vec![0, 1]);
    assert_eq!(w.get_with_component(&Components::Enemy), Vec::<usize>::new());
    assert_eq!(w.get_with_components(vec![Components::Player]), vec![0]);
    assert_eq!(w.get_with_components(vec![Components::Wall]), vec![2]);
    assert_eq!(w.get_with_components(Vec::new()), Vec::<usize>::new());
    assert_eq!(w.query_comp(Components::Wall), Some(1));
    assert_eq!(w.query_comp(Components::Enemy), None);
    assert!(w.get_with_id(2).is_some());
    assert!(w.get_with_id(3).is_none());
    w.get_with_id(0).unwrap().set_cords(4, 4);
    assert_eq!(w.objects[0].get_cords(), Some(Vec2::new(4, 4)));
    let mut n = 0;
    w.map_objects(|o: &mut ObjectHeader| {
        o.force_rerender();
        n += 1;
    });
    assert_eq!(n, 3);
    assert_eq!(w.objects[2].should_render(), ShouldRender::ForceRerender);
}

#[test]
fn world_redraws() {
    let mut w = World::new();
    w.insert_object_head(sprite(3, 2).build());
    let mut out = screen();
    w.rerender_all(&mut out, 80, 24);
    let cmds = out.take_commands();
    assert!(matches!(cmds[0], ScreenCommand::ClearAll));
    assert!(matches!(cmds[1], ScreenCommand::Cursor(CursorMoveTo::Pos((0, 0)))));
    assert!(matches!(cmds[2], ScreenCommand::SetBackground(GColor::RGB(50, 100, 150))));
    assert!(matches!(cmds[3], ScreenCommand::SetForeground(GColor::White)));
    assert!(matches!(cmds[4], ScreenCommand::Fill(32, 1920)));
    assert!(matches!(cmds[5], ScreenCommand::Cursor(CursorMoveTo::Pos((3, 2)))));
    assert!(w.objects[0].is_printed());
    assert!(!w.render_changes(&mut out, false));
    assert_eq!(out.take_commands().len(), 1);
    assert!(w.render_changes(&mut out, true));
    assert!(!World::new().render_changes(&mut out, true));
}

#[test]
fn screen_commands() {
    let mut s = screen();
    s.print_title(Some(" fps".to_string()));
    s.print_title(None);
    s.reset_color();
    let cmds = s.take_commands();
    assert!(matches!(&cmds[0], ScreenCommand::Raw(t) if t == "\x1b]0;game fps\x07"));
    assert!(matches!(&cmds[1], ScreenCommand::Raw(t) if t == "\x1b]0;game\x07"));
    assert!(matches!(&cmds[2], ScreenCommand::Print(t) if t.text.is_empty() && t.fore == GColor::White));
    s.print_line("one".to_string(), 4, 2);
    assert_eq!(s.posy, 1);
    s.print_line("two".to_string(), 4, 2);
    assert_eq!(s.posy, 0);
    let cmds = s.take_commands();
    assert_eq!(cmds.len(), 9);
    assert!(matches!(cmds[0], ScreenCommand::Cursor(CursorMoveTo::Pos((0, 0)))));
    assert!(matches!(&cmds[1], ScreenCommand::Raw(t) if t == "one"));
    assert!(matches!(cmds[2], ScreenCommand::Cursor(CursorMoveTo::Pos((0, 1)))));
    assert!(matches!(cmds[4], ScreenCommand::ClearAll));
    assert!(matches!(cmds[8], ScreenCommand::Fill(32, 8)));
}

#[test]
fn keys_and_input() {
    assert_eq!(Keys::from(KeyCode::Char('w')), Keys::Up);
    assert_eq!(Keys::from(KeyCode::Char('D')), Keys::Right);
    assert_eq!(Keys::from(KeyCode::Char('x')), Keys::Null);
    assert_eq!(Keys::from(KeyCode::F(4)), Keys::Debug);
    assert_eq!(Keys::from(KeyCode::F(5)), Keys::Refresh);
    assert_eq!(Keys::from(KeyCode::Esc), Keys::Esc);
    assert_eq!(Keys::from_name("Space"), Some(Keys::Space));
    assert_eq!(Keys::from_name("space"), None);
    let mut i = Input::new(Duration::from_millis(1));
    assert_eq!(i.poll_timeout(), Duration::from_millis(1));
    i.handle_key(Keys::Up, KeyEventKind::Press);
    assert!(i.is_key_pressed("Up"));
    assert!(i.is_key_just_pressed("Up"));
    i.handle_key(Keys::Up, KeyEventKind::Release);
    assert!(!i.is_key_pressed("Up"));
    assert!(i.is_key_just_pressed("Up"));
    i.end_frame();
    assert!(!i.is_key_just_pressed("Up"));
    i.handle_key(Keys::Q, KeyEventKind::Repeat);
    assert!(i.is_key_pressed("Q"));
    assert!(!i.is_key_just_pressed("Q"));
    assert!(!i.is_key_pressed("Nope"));
}

#[test]
fn flags_follow_keys() {
    let mut f = FlagSet::new();
    assert!(!f.contains(&Flags::Debug));
    f.insert(Flags::Custom("x".to_string()));
    assert!(f.contains(&Flags::Custom("x".to_string())));
    assert!(!f.contains(&Flags::Custom("y".to_string())));
    f.remove(&Flags::Custom("x".to_string()));
    assert!(!f.contains(&Flags::Custom("x".to_string())));
    let mut i = Input::new(Duration::from_millis(1));
    i.handle_key(Keys::Debug, KeyEventKind::Press);
    i.handle_key(Keys::Refresh, KeyEventKind::Press);
    f.organize(&i);
    assert!(f.contains(&Flags::Debug));
    assert!(f.contains(&Flags::Rerender));
    assert!(f.take_redraw());
    assert!(!f.take_redraw());
    assert_eq!(f.debug_title_step(), TitleUpdate::Stats);
    assert!(!f.contains(&Flags::Debug));
    assert_eq!(f.debug_title_step(), TitleUpdate::Stats);
    f.insert(Flags::Debug);
    assert_eq!(f.debug_title_step(), TitleUpdate::Plain);
    assert_eq!(f.debug_title_step(), TitleUpdate::Keep);
    f.insert(Flags::ForceRerender);
    assert!(f.take_redraw());
}

#[test]
fn resizes() {
    let mut f = FlagSet::new();
    let mut s = screen();
    assert!(!apply_resize(&mut f, &mut s, Vec2::new(80, 24)));
    assert!(!f.contains(&Flags::Resized));
    assert!(apply_resize(&mut f, &mut s, Vec2::new(100, 30)));
    assert_eq!(s.screen, Vec2::new(100, 30));
    assert!(f.contains(&Flags::Resized));
    assert!(f.contains(&Flags::Rerender));
}

#[test]
fn systems_registry_and_signals() {
    let mut s: Systems<u32> = Systems::new();
    s.new_system(1, "a".to_string(), true);
    s.new_system(2, "b".to_string(), false);
    s.new_system(3, "a".to_string(), false);
    assert_eq!(s.system_count(), 2);
    assert_eq!(s.get_system_with_name("a".to_string()).unwrap().fun, 3);
    assert!(s.get_system_with_name("c".to_string()).is_none());
    assert!(s.register_signal("a", "hit").is_ok());
    assert!(s.register_signal("b", "hit").is_ok());
    assert!(matches!(s.register_signal("zz", "hit"), Err(SystemError::NoSuchSystem)));
    assert_eq!(s.get_system_with_registered(&"hit".to_string()), vec!["a".to_string(), "b".to_string()]);
    assert!(s.unregister_signal("a", "hit").is_ok());
    assert_eq!(s.get_system_with_registered(&"hit".to_string()), vec!["b".to_string()]);
    s.send_signal("hit", "nobody", SignalPayload(Box::new(3u8)));
    s.send_signal("other", "a", SignalPayload(Box::new(4u8)));
    let msgs = s.take_signals();
    assert_eq!(msgs.len(), 2);
    assert!(s.take_signals().is_empty());
    assert_eq!(s.signal_recipients(&msgs[0]), vec![1]);
    assert_eq!(s.signal_recipients(&msgs[1]), vec![0]);
    assert_eq!(msgs[0].msg.0.downcast_ref::<u8>(), Some(&3));
    assert_eq!(msgs[1].target, "a");
}

#[test]
fn system_lifecycle() {
    let mut s: Systems<u32> = Systems::new();
    s.push_system_builder(SystemBuilder::new(9).with_name("w".to_string()));
    let sys = s.system_at(0).unwrap();
    assert_eq!(sys.system_name(), "w");
    assert!(!sys.is_active());
    assert!(sys.activate());
    assert!(!sys.activate());
    assert!(sys.is_active() && sys.is_init());
    assert!(sys.register_signal("x".to_string()));
    assert!(!sys.register_signal("x".to_string()));
    assert!(sys.unregister_signal("x".to_string()));
    assert!(!sys.unregister_signal("x".to_string()));
    assert!(sys.deactivate());
    assert!(!sys.is_active());
    sys.activate();
    sys.destroy();
    assert!(!sys.is_active());
    assert!(s.system_at(1).is_none());
}

#[test]
fn fresh_system_names_are_uuids() {
    let sys = SystemBuilder::new(0u8).build();
    let name: Vec<char> = sys.system_name().chars().collect();
    assert_eq!(name.len(), 36);
    for (i, c) in name.iter().enumerate() {
        if i == 8 || i == 13 || i == 18 || i == 23 {
            assert_eq!(*c, '-');
        } else {
            assert!(c.is_ascii_hexdigit() && !c.is_ascii_uppercase());
        }
    }
    assert_eq!(name[14], '4');
    let other = SystemBuilder::new(0u8).build();
    assert_ne!(sys.system_name(), other.system_name());
}
