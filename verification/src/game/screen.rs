use vstd::prelude::*;
use vstd::string::StringExecFns;
use crate::math::Vec2;
use crate::print::{GColor, TermPrint};
use crate::gameobject::{ObjectHeader, print_effect};

verus! {

/// A cursor movement on the terminal.
#[derive(Debug, Clone, Copy, PartialEq, Eq)]
pub enum CursorMoveTo {
    Up(u16),
    Down(u16),
    Left(u16),
    Right(u16),
    /// Absolute position, column first: `Pos((x, y))`.
    Pos((u16, u16)),
}

/// One command queued for the terminal. The terminal itself only receives
/// them when the queue is flushed.
#[derive(Debug)]
pub enum ScreenCommand {
    /// Move the cursor.
    Cursor(CursorMoveTo),
    /// Print coloured text (see `TermPrint::render`).
    Print(TermPrint),
    /// Print text as it is.
    Raw(String),
    /// Print the character with the given code point the given number of times.
    Fill(u32, u32),
    /// Clear the whole terminal.
    ClearAll,
    /// Set the background colour of what follows.
    SetBackground(GColor),
    /// Set the foreground colour of what follows.
    SetForeground(GColor),
}

/// A queued command with its text taken by value: what the terminal will
/// be told.
pub enum CommandView {
    Cursor(CursorMoveTo),
    Print(GColor, GColor, Seq<char>),
    Raw(Seq<char>),
    Fill(u32, nat),
    ClearAll,
    SetBackground(GColor),
    SetForeground(GColor),
}

/// What a queued command tells the terminal.
pub open spec fn command_view(c: ScreenCommand) -> CommandView {
    match c {
        ScreenCommand::Cursor(m) => CommandView::Cursor(m),
        ScreenCommand::Print(t) => CommandView::Print(t.background, t.fore, t.text@),
        ScreenCommand::Raw(s) => CommandView::Raw(s@),
        ScreenCommand::Fill(c, n) => CommandView::Fill(c, n as nat),
        ScreenCommand::ClearAll => CommandView::ClearAll,
        ScreenCommand::SetBackground(c) => CommandView::SetBackground(c),
        ScreenCommand::SetForeground(c) => CommandView::SetForeground(c),
    }
}

/// Printing text with the given colours.
pub open spec fn print_cmd(background: GColor, fore: GColor, text: Seq<char>) -> CommandView {
    CommandView::Print(background, fore, text)
}

/// Moving the cursor to a cell.
pub open spec fn move_to(x: u16, y: u16) -> CommandView {
    CommandView::Cursor(CursorMoveTo::Pos((x, y)))
}

/// `f(0) + f(1) + ... + f(n - 1)`.
pub open spec fn concat_cmds(n: nat, f: spec_fn(int) -> Seq<CommandView>) -> Seq<CommandView>
    decreases n,
{
    if n == 0 {
        Seq::empty()
    } else {
        concat_cmds((n - 1) as nat, f) + f(n - 1)
    }
}

/// The terminal: its size, its colours (background, foreground, fill
/// character), its title, the line `print` writes to next, and the
/// commands queued for it.
pub struct Screen {
    pub posy: u16,
    pub screen: Vec2,
    pub bg: (GColor, GColor, char),
    pub title: String,
    pub commands: Vec<ScreenCommand>,
}

/// What queuing text with the given colours on a screen with colours `bg`
/// (background, foreground, fill) prints: the text, with the screen's own
/// colours in place of `Default` ones.
pub open spec fn print_in(bg: (GColor, GColor, char), background: GColor, fore: GColor, text: Seq<char>) -> CommandView {
    print_cmd(or_default(background, bg.0), or_default(fore, bg.1), text)
}

/// What a colour reset on a screen with colours `bg` prints: nothing, in
/// the screen's colours.
pub open spec fn reset_in(bg: (GColor, GColor, char)) -> CommandView {
    print_cmd(bg.0, bg.1, Seq::empty())
}

/// Colour `c`, or `default` where `c` is `GColor::Default`.
pub open spec fn or_default(c: GColor, default: GColor) -> GColor {
    if c == GColor::Default { default } else { c }
}

impl Screen {
    /// The commands queued so far, oldest first.
    pub open spec fn queued(&self) -> Seq<CommandView> {
        Seq::new(self.commands@.len(), |i: int| command_view(self.commands@[i]))
    }

    /// The window title.
    pub open spec fn title_view(&self) -> Seq<char> {
        self.title@
    }

    /// Everything but the queue is the same in both.
    pub open spec fn same_settings(&self, other: &Screen) -> bool {
        &&& self.posy == other.posy
        &&& self.screen == other.screen
        &&& self.bg == other.bg
        &&& self.title_view() == other.title_view()
    }

    /// What `queue` prints for `t`: its text, with the screen's own
    /// colours in place of `Default` ones.
    pub open spec fn print_for(&self, background: GColor, fore: GColor, text: Seq<char>) -> CommandView {
        print_in(self.bg, background, fore, text)
    }

    /// What `reset_color` prints: nothing, in the screen's colours.
    pub open spec fn reset_cmd(&self) -> CommandView {
        reset_in(self.bg)
    }

    /// A screen of the given size, titled `title`, with nothing queued,
    /// in white on RGB(50, 100, 150) filled with spaces.
    pub fn new(title: String, screen: Vec2) -> (r: Self)
        ensures
            r.posy == 0,
            r.screen == screen,
            r.bg == (GColor::RGB(50, 100, 150), GColor::White, ' '),
            r.title_view() == title@,
            r.queued() == Seq::<CommandView>::empty(),
    {
        let r = Screen {
            bg: (GColor::RGB(50, 100, 150), GColor::White, ' '),
            screen,
            posy: 0,
            title,
            commands: Vec::new(),
        };
        assert(r.queued() =~= Seq::<CommandView>::empty());
        r
    }

    fn push(&mut self, c: ScreenCommand)
        ensures
            final(self).queued() == old(self).queued().push(command_view(c)),
            final(self).same_settings(old(self)),
    {
        self.commands.push(c);
        assert(final(self).queued() =~= old(self).queued().push(command_view(c)));
    }

    /// Draws object `p` (see `ObjectHeader::print`).
    pub fn cursor_queque_obj(&mut self, p: &mut ObjectHeader)
        requires
            old(p).print_safe(),
        ensures
            final(self).same_settings(old(self)),
            final(self).queued() == old(self).queued() + print_effect(old(self).bg, *old(p)),
            final(p).ident() == old(p).ident(),
            final(p).attrs() == old(p).attrs(),
            final(p).comps() == old(p).comps(),
            final(p).previous() == old(p).previous(),
            final(p).is_forced() == old(p).is_forced(),
            old(p).attrs().location() is Some && old(p).attrs().texture() is Some ==> !final(p).is_changed()
                && final(p).is_printed_spec(),
            !(old(p).attrs().location() is Some && old(p).attrs().texture() is Some) ==> final(p).is_changed()
                == old(p).is_changed() && final(p).is_printed_spec() == old(p).is_printed_spec(),
    {
        let ghost q0 = self.queued();
        p.print(self);
        assert(self.queued() =~= q0 + print_effect(old(self).bg, *old(p)));
    }

    /// Queues `print`, written as it is.
    pub fn cursor_queque(&mut self, print: &str)
        ensures
            final(self).queued() == old(self).queued().push(CommandView::Raw(print@)),
            final(self).same_settings(old(self)),
    {
        self.push(ScreenCommand::Raw(print.to_owned()));
    }

    /// Queues a cursor movement.
    pub fn cursor_move(&mut self, pos: CursorMoveTo)
        ensures
            final(self).queued() == old(self).queued().push(CommandView::Cursor(pos)),
            final(self).same_settings(old(self)),
    {
        self.push(ScreenCommand::Cursor(pos));
    }

    /// Queues `s`, in the screen's colours where its own are `Default`.
    pub fn queue(&mut self, s: &TermPrint)
        ensures
            final(self).queued() == old(self).queued().push(
                old(self).print_for(s.background, s.fore, s.text@),
            ),
            final(self).same_settings(old(self)),
    {
        let mut s = s.clone();
        if s.background == GColor::Default {
            s.background = self.bg.0;
        }
        if s.fore == GColor::Default {
            s.fore = self.bg.1;
        }
        self.push(ScreenCommand::Print(s));
    }

    /// Queues a switch back to the screen's colours.
    pub fn reset_color(&mut self)
        ensures
            final(self).queued() == old(self).queued().push(old(self).reset_cmd()),
            final(self).same_settings(old(self)),
    {
        proof { reveal_strlit(""); }
        let t = TermPrint::new("", self.bg.0, self.bg.1);
        assert(t.text@ =~= Seq::<char>::empty());
        self.push(ScreenCommand::Print(t));
    }

    /// Queues `text`, printed as it is.
    pub fn print_raw(&mut self, text: String)
        ensures
            final(self).queued() == old(self).queued().push(CommandView::Raw(text@)),
            final(self).same_settings(old(self)),
    {
        self.push(ScreenCommand::Raw(text));
    }

    /// Queues the escape sequence that sets the window title to the
    /// screen's title followed by `extra`.
    pub fn print_title(&mut self, extra: Option<String>)
        ensures
            final(self).queued() == old(self).queued().push(CommandView::Raw(
                "\x1b]0;"@ + old(self).title_view() + (match extra {
                    Some(e) => e@,
                    None => Seq::empty(),
                }) + "\x07"@,
            )),
            final(self).same_settings(old(self)),
    {
        let mut t = String::new();
        proof {
            reveal_strlit("\x1b]0;");
            reveal_strlit("\x07");
        }
        t.append("\x1b]0;");
        t.append(self.title.as_str());
        match &extra {
            Some(e) => t.append(e.as_str()),
            None => {},
        }
        t.append("\x07");
        self.print_raw(t);
    }

    /// Queues a clear of a terminal of `column` by `line` cells: clear, go
    /// home, select the screen's colours and fill every cell with its fill
    /// character.
    pub fn clear_bg(&mut self, column: u16, line: u16)
        requires
            old(self).bg.0 != GColor::Default,
            old(self).bg.1 != GColor::Default,
            column * line <= u16::MAX,
        ensures
            final(self).queued() == old(self).queued() + seq![
                CommandView::ClearAll,
                move_to(0, 0),
                CommandView::SetBackground(old(self).bg.0),
                CommandView::SetForeground(old(self).bg.1),
                CommandView::Fill(old(self).bg.2 as u32, (column * line) as nat),
            ],
            final(self).same_settings(old(self)),
    {
        let cells: u16 = column * line;
        let c0 = self.bg.0;
        let c1 = self.bg.1;
        let fill: u32 = self.bg.2 as u32;
        let mut cmds: Vec<ScreenCommand> = Vec::new();
        cmds.push(ScreenCommand::ClearAll);
        cmds.push(ScreenCommand::Cursor(CursorMoveTo::Pos((0, 0))));
        cmds.push(ScreenCommand::SetBackground(c0));
        cmds.push(ScreenCommand::SetForeground(c1));
        cmds.push(ScreenCommand::Fill(fill, cells as u32));
        assert(Seq::new(cmds@.len(), |i: int| command_view(cmds@[i])) =~= seq![
            CommandView::ClearAll,
            move_to(0, 0),
            CommandView::SetBackground(c0),
            CommandView::SetForeground(c1),
            CommandView::Fill(fill, (column * line) as nat),
        ]);
        self.append_all(cmds);
    }

    /// Writes `text` at the start of the next free line (`posy`) and moves
    /// down a line; when the lines of a terminal of `column` by `line` cells
    /// run out, starts again at the top of a cleared screen.
    pub fn print_line(&mut self, text: String, column: u16, line: u16)
        requires
            old(self).posy < u16::MAX,
            old(self).posy + 1 == line ==> old(self).bg.0 != GColor::Default && old(self).bg.1 != GColor::Default
                && column * line <= u16::MAX,
        ensures
            final(self).posy == if old(self).posy + 1 == line { 0 } else { old(self).posy + 1 },
            final(self).screen == old(self).screen,
            final(self).bg == old(self).bg,
            final(self).title_view() == old(self).title_view(),
            final(self).queued() == old(self).queued() + seq![move_to(0, old(self).posy), CommandView::Raw(text@)]
                + if old(self).posy + 1 == line {
                seq![
                    CommandView::ClearAll,
                    move_to(0, 0),
                    CommandView::SetBackground(old(self).bg.0),
                    CommandView::SetForeground(old(self).bg.1),
                    CommandView::Fill(old(self).bg.2 as u32, (column * line) as nat),
                ]
            } else {
                Seq::empty()
            },
    {
        let y = self.posy;
        self.cursor_move(CursorMoveTo::Pos((0, y)));
        self.print_raw(text);
        let ghost q = self.queued();
        self.posy = y + 1;
        if self.posy == line {
            self.posy = 0;
            self.clear_bg(column, line);
        } else {
            assert(self.queued() =~= q + Seq::<CommandView>::empty());
        }
        assert(q =~= old(self).queued() + seq![move_to(0, old(self).posy), CommandView::Raw(text@)]);
    }

    fn append_all(&mut self, cmds: Vec<ScreenCommand>)
        ensures
            final(self).queued() == old(self).queued() + Seq::new(cmds@.len(), |i: int| command_view(cmds@[i])),
            final(self).same_settings(old(self)),
    {
        let ghost added = Seq::new(cmds@.len(), |i: int| command_view(cmds@[i]));
        let mut cmds = cmds;
        self.commands.append(&mut cmds);
        assert(final(self).queued() =~= old(self).queued() + added);
    }

    /// Hands over the queued commands, oldest first, and empties the queue.
    pub fn take_commands(&mut self) -> (r: Vec<ScreenCommand>)
        ensures
            Seq::new(r@.len(), |i: int| command_view(r@[i])) == old(self).queued(),
            final(self).queued() == Seq::<CommandView>::empty(),
            final(self).same_settings(old(self)),
    {
        let mut r = Vec::new();
        std::mem::swap(&mut r, &mut self.commands);
        assert(final(self).queued() =~= Seq::<CommandView>::empty());
        assert(Seq::new(r@.len(), |i: int| command_view(r@[i])) =~= old(self).queued());
        r
    }
}


} // verus!
