use vstd::prelude::*;
use crate::components::{Attribute, Attributes, Components, same_component};
use crate::game::screen::{Screen, CommandView, reset_in};
use crate::math::Vec2;
use crate::print::{GColor, GameTexture, texture_print_cmds, texture_clear_cmds};

verus! {

/// Builds an object attribute by attribute.
pub struct ObjectBuilder {
    pub attributes: Attributes,
    pub components: Vec<Components>,
}

/// `comps` holds a role equal to `c`.
pub open spec fn has_component(comps: Seq<Components>, c: Components) -> bool {
    exists|i: int| 0 <= i < comps.len() && same_component(#[trigger] comps[i], c)
}

/// `comps` after adding `c` unless an equal role is already there.
pub open spec fn with_component_seq(comps: Seq<Components>, c: Components) -> Seq<Components> {
    if has_component(comps, c) { comps } else { comps.push(c) }
}

/// Whether `comps` holds a role equal to `c`.
pub fn contains_component(comps: &Vec<Components>, c: &Components) -> (r: bool)
    ensures
        r == has_component(comps@, *c),
{
    let mut i: usize = 0;
    while i < comps.len()
        invariant
            i <= comps@.len(),
            forall|j: int| 0 <= j < i ==> !same_component(#[trigger] comps@[j], *c),
        decreases comps@.len() - i,
    {
        if comps[i] == *c {
            return true;
        }
        i = i + 1;
    }
    false
}

/// Sets attribute `att` on `a`.
pub open spec fn attribute_set(old: Attributes, new: Attributes, att: Attribute) -> bool {
    match att {
        Attribute::Location(v) => new.location() == Some(v)
            && new.same_except(&old, true, false, false, false, false, false, false, false) && new.same_customs(&old),
        Attribute::Velocity(v) => new.velocity() == Some(v)
            && new.same_except(&old, false, true, false, false, false, false, false, false) && new.same_customs(&old),
        Attribute::Acc(v) => new.acc() == Some(v)
            && new.same_except(&old, false, false, true, false, false, false, false, false) && new.same_customs(&old),
        Attribute::Mass(v) => new.mass() == Some(v)
            && new.same_except(&old, false, false, false, true, false, false, false, false) && new.same_customs(&old),
        Attribute::Texture(v) => new.texture() == Some(v)
            && new.same_except(&old, false, false, false, false, true, false, false, false) && new.same_customs(&old),
        Attribute::Col(v) => new.col() == Some(v)
            && new.same_except(&old, false, false, false, false, false, true, false, false) && new.same_customs(&old),
        Attribute::Render(v) => new.render() == Some(v)
            && new.same_except(&old, false, false, false, false, false, false, true, false) && new.same_customs(&old),
        Attribute::Custom(v) => new.custom_named(v.name@) == Some(v)
            && (forall|n: Seq<char>| n != v.name@ ==> #[trigger] new.custom_named(n) == old.custom_named(n))
            && new.same_except(&old, false, false, false, false, false, false, false, false),
        Attribute::Tag(v) => new.tag() == Some(v@)
            && new.same_except(&old, false, false, false, false, false, false, false, true) && new.same_customs(&old),
    }
}

impl ObjectBuilder {
    /// The attributes set so far.
    pub open spec fn attrs(&self) -> Attributes {
        self.attributes
    }

    /// The roles added so far, in order.
    pub open spec fn comps(&self) -> Seq<Components> {
        self.components@
    }

    /// A builder with no attribute and no role.
    pub fn new() -> (r: Self)
        ensures
            r.attrs().location() is None,
            r.attrs().velocity() is None,
            r.attrs().acc() is None,
            r.attrs().mass() is None,
            r.attrs().texture() is None,
            r.attrs().col() is None,
            r.attrs().render() is None,
            r.attrs().tag() is None,
            forall|n: Seq<char>| #[trigger] r.attrs().custom_named(n) is None,
            r.comps() == Seq::<Components>::empty(),
    {
        ObjectBuilder { attributes: Attributes::new(), components: Vec::new() }
    }

    /// Sets `att`, replacing an earlier attribute of the same kind (and, for
    /// custom ones, the same name).
    pub fn with_attribute(self, att: Attribute) -> (r: Self)
        ensures
            attribute_set(self.attrs(), r.attrs(), att),
            r.comps() == self.comps(),
    {
        let mut s = self;
        match att {
            Attribute::Location(v) => s.attributes.set_Location(v),
            Attribute::Velocity(v) => s.attributes.set_Velocity(v),
            Attribute::Acc(v) => s.attributes.set_Acc(v),
            Attribute::Mass(v) => s.attributes.set_Mass(v),
            Attribute::Texture(v) => s.attributes.set_Texture(v),
            Attribute::Col(v) => s.attributes.set_Col(v),
            Attribute::Render(v) => s.attributes.set_Render(v),
            Attribute::Custom(v) => s.attributes.set_Custom(v),
            Attribute::Tag(v) => s.attributes.set_Tag(v),
        }
        s
    }

    /// Adds role `comp` unless an equal one is already there.
    pub fn with_component(self, comp: Components) -> (r: Self)
        ensures
            r.comps() == with_component_seq(self.comps(), comp),
            r.attrs() == self.attrs(),
    {
        let mut s = self;
        if !contains_component(&s.components, &comp) {
            s.components.push(comp);
        }
        s
    }

    /// The object: changed, not printed, id 0, last drawn at the origin.
    pub fn build(self) -> (r: ObjectHeader)
        ensures
            r.ident() == 0,
            r.attrs() == self.attrs(),
            r.comps() == self.comps(),
            r.is_changed(),
            !r.is_printed_spec(),
            !r.is_forced(),
            r.previous() == (Vec2 { x: 0, y: 0 }),
    {
        ObjectHeader {
            attributes: self.attributes,
            changed: true,
            components: self.components,
            printed: false,
            id: 0,
            previus: Vec2::new(0, 0),
            force_rerender: false,
        }
    }
}

/// What the renderer should do with an object this frame.
#[derive(Debug, Clone, Copy, PartialEq, Eq, Structural)]
pub enum ShouldRender {
    Unchanged,
    Changed,
    ForceRerender,
    Clear,
    Disabled,
}

/// A game object: its attributes and roles, and what the renderer knows of it.
pub struct ObjectHeader {
    pub id: usize,
    pub attributes: Attributes,
    pub components: Vec<Components>,
    pub(crate) previus: Vec2,
    pub(crate) printed: bool,
    pub(crate) changed: bool,
    pub(crate) force_rerender: bool,
}

/// The decision `should_render` takes: nothing to draw without a location
/// and a texture; a forced redraw first; then, if rendering is switched
/// off, clear what is on screen (or nothing); otherwise redraw if changed.
pub open spec fn render_decision(
    has_location: bool,
    has_texture: bool,
    forced: bool,
    render: Option<bool>,
    printed: bool,
    changed: bool,
) -> ShouldRender {
    if has_location && has_texture {
        if forced {
            ShouldRender::ForceRerender
        } else if render == Some(false) {
            if printed { ShouldRender::Clear } else { ShouldRender::Disabled }
        } else if changed {
            ShouldRender::Changed
        } else {
            ShouldRender::Unchanged
        }
    } else {
        ShouldRender::Disabled
    }
}

impl ObjectHeader {
    /// Its attributes.
    pub closed spec fn attrs(&self) -> Attributes {
        self.attributes
    }

    /// Its roles, in order.
    pub closed spec fn comps(&self) -> Seq<Components> {
        self.components@
    }

    /// Its identifier.
    pub closed spec fn ident(&self) -> usize {
        self.id
    }

    /// Moved since it was last printed.
    pub closed spec fn is_changed(&self) -> bool {
        self.changed
    }

    /// Asked to be redrawn whatever its state.
    pub closed spec fn is_forced(&self) -> bool {
        self.force_rerender
    }

    /// On screen.
    pub closed spec fn is_printed_spec(&self) -> bool {
        self.printed
    }

    /// Where it was when last printed (for erasing it).
    pub closed spec fn previous(&self) -> Vec2 {
        self.previus
    }

    /// What `should_render` answers for this object.
    pub open spec fn decision(&self) -> ShouldRender {
        render_decision(
            self.attrs().location() is Some,
            self.attrs().texture() is Some,
            self.is_forced(),
            self.attrs().render(),
            self.is_printed_spec(),
            self.is_changed(),
        )
    }

    /// The renderer's state is as in `other`, but perhaps for the attributes.
    pub open spec fn same_render_state(&self, other: &ObjectHeader) -> bool {
        &&& self.is_changed() == other.is_changed()
        &&& self.is_forced() == other.is_forced()
        &&& self.is_printed_spec() == other.is_printed_spec()
        &&& self.previous() == other.previous()
    }

    /// Its location, if it has one.
    pub fn get_cords(&self) -> (r: Option<Vec2>)
        ensures
            r == self.attrs().location(),
    {
        match self.attributes.get_Location() {
            Some(a) => Some(*a),
            None => None,
        }
    }

    /// Moves it to `(x, y)` if it has a location. A real move marks it
    /// changed and, if it was up to date, remembers where it was drawn.
    pub fn set_cords(&mut self, x: i32, y: i32)
        ensures
            final(self).ident() == old(self).ident(),
            final(self).comps() == old(self).comps(),
            final(self).is_forced() == old(self).is_forced(),
            final(self).is_printed_spec() == old(self).is_printed_spec(),
            match old(self).attrs().location() {
                Some(v) if v != (Vec2 { x, y }) => {
                    &&& final(self).attrs().location() == Some(Vec2 { x, y })
                    &&& final(self).attrs().same_except(&old(self).attrs(), true, false, false, false, false, false, false, false)
                    &&& final(self).attrs().same_customs(&old(self).attrs())
                    &&& final(self).is_changed()
                    &&& final(self).previous() == if old(self).is_changed() { old(self).previous() } else { v }
                },
                _ => *final(self) == *old(self),
            },
    {
        match self.attributes.get_Location() {
            Some(v) => {
                let v = *v;
                let new = Vec2::from((x, y));
                if new != v {
                    if !self.changed {
                        self.previus = v;
                    }
                    self.attributes.set_Location(new);
                    self.changed = true;
                }
            },
            None => {},
        }
    }

    /// Drawing it at its location stays inside `i32` arithmetic (there is
    /// nothing to draw without a location and a texture).
    pub open spec fn print_safe(&self) -> bool {
        match (self.attrs().location(), self.attrs().texture()) {
            (Some(loc), Some(tex)) => tex.print_ok(loc),
            _ => true,
        }
    }

    /// Erasing it where it was last drawn stays inside `i32` arithmetic
    /// (nothing is erased unless it is on screen).
    pub open spec fn clear_safe(&self) -> bool {
        match (self.attrs().location(), self.attrs().texture()) {
            (Some(loc), Some(tex)) => self.is_printed_spec() ==> tex.clear_ok(loc, self.previous()),
            _ => true,
        }
    }

    /// What a full redraw does to it stays inside `i32` arithmetic.
    pub open spec fn rerender_safe(&self) -> bool {
        if draws(self.decision()) { self.print_safe() } else { self.clear_safe() }
    }

    /// What bringing it up to date does to it stays inside `i32` arithmetic.
    pub open spec fn update_safe(&self) -> bool {
        if redraws(self.decision()) {
            self.print_safe() && self.clear_safe()
        } else if self.decision() == ShouldRender::Unchanged {
            true
        } else {
            self.clear_safe()
        }
    }

    /// What `should_render` would answer, without consuming a forced
    /// redraw.
    fn peek_decision(&self) -> (r: ShouldRender)
        ensures
            r == self.decision(),
    {
        if self.attributes.check_Location() && self.attributes.check_Texture() {
            if self.force_rerender {
                ShouldRender::ForceRerender
            } else if self.attributes.get_Render() == Some(&false) {
                if self.printed { ShouldRender::Clear } else { ShouldRender::Disabled }
            } else if self.changed {
                ShouldRender::Changed
            } else {
                ShouldRender::Unchanged
            }
        } else {
            ShouldRender::Disabled
        }
    }

    fn check_print(&self) -> (r: bool)
        ensures
            r == self.print_safe(),
    {
        match (self.attributes.get_Location(), self.attributes.get_Texture()) {
            (Some(loc), Some(tex)) => tex.can_print(*loc),
            _ => true,
        }
    }

    fn check_clear(&self) -> (r: bool)
        ensures
            r == self.clear_safe(),
    {
        match (self.attributes.get_Location(), self.attributes.get_Texture()) {
            (Some(loc), Some(tex)) => !self.printed || tex.can_clear(*loc, self.previus),
            _ => true,
        }
    }

    /// Whether a full redraw of it stays inside `i32` arithmetic (see
    /// `rerender_safe`).
    pub fn can_rerender(&self) -> (r: bool)
        ensures
            r == self.rerender_safe(),
    {
        match self.peek_decision() {
            ShouldRender::ForceRerender | ShouldRender::Unchanged | ShouldRender::Changed => self.check_print(),
            ShouldRender::Clear | ShouldRender::Disabled => self.check_clear(),
        }
    }

    /// Whether bringing it up to date stays inside `i32` arithmetic (see
    /// `update_safe`).
    pub fn can_update(&self) -> (r: bool)
        ensures
            r == self.update_safe(),
    {
        match self.peek_decision() {
            ShouldRender::ForceRerender | ShouldRender::Changed => self.check_print() && self.check_clear(),
            ShouldRender::Unchanged => true,
            ShouldRender::Clear | ShouldRender::Disabled => self.check_clear(),
        }
    }

    /// Draws it if it has a location and a texture (then it is printed and
    /// up to date). Tells whether it drew.
    pub fn print(&mut self, out: &mut Screen) -> (r: bool)
        requires
            old(self).print_safe(),
        ensures
            final(out).same_settings(old(out)),
            final(self).ident() == old(self).ident(),
            final(self).attrs() == old(self).attrs(),
            final(self).comps() == old(self).comps(),
            final(self).previous() == old(self).previous(),
            final(self).is_forced() == old(self).is_forced(),
            match (old(self).attrs().location(), old(self).attrs().texture()) {
                (Some(loc), Some(tex)) => {
                    &&& r
                    &&& final(out).queued() == old(out).queued() + texture_print_cmds(old(out).bg, tex.shapes(), loc)
                    &&& !final(self).is_changed()
                    &&& final(self).is_printed_spec()
                },
                _ => {
                    &&& !r
                    &&& final(out).queued() == old(out).queued()
                    &&& final(self).is_changed() == old(self).is_changed()
                    &&& final(self).is_printed_spec() == old(self).is_printed_spec()
                },
            },
    {
        match (self.attributes.get_Location(), self.attributes.get_Texture()) {
            (Some(loc), Some(tex)) => {
                tex.print(out, *loc);
                self.changed = false;
                self.printed = true;
                true
            },
            _ => false,
        }
    }

    /// Erases it where it was last drawn, if it has a location and a texture
    /// and is on screen; afterwards it is not on screen.
    pub fn clearself(&mut self, out: &mut Screen)
        requires
            old(self).clear_safe(),
        ensures
            final(out).same_settings(old(out)),
            final(self).ident() == old(self).ident(),
            final(self).attrs() == old(self).attrs(),
            final(self).comps() == old(self).comps(),
            final(self).previous() == old(self).previous(),
            final(self).is_forced() == old(self).is_forced(),
            final(self).is_changed() == old(self).is_changed(),
            match (old(self).attrs().location(), old(self).attrs().texture()) {
                (Some(loc), Some(tex)) => {
                    &&& final(out).queued() == old(out).queued() + if old(self).is_printed_spec() {
                        texture_clear_cmds(old(out).bg, tex.shapes(), loc, old(self).previous())
                    } else {
                        Seq::empty()
                    }
                    &&& !final(self).is_printed_spec()
                },
                _ => {
                    &&& final(out).queued() == old(out).queued()
                    &&& final(self).is_printed_spec() == old(self).is_printed_spec()
                },
            },
    {
        match (self.attributes.get_Location(), self.attributes.get_Texture()) {
            (Some(loc), Some(tex)) => {
                if self.printed {
                    tex.clearself(out, *loc, self.previus);
                    self.printed = false;
                }
                self.printed = false;
                assert(out.queued() =~= old(out).queued() + if old(self).is_printed_spec() {
                    texture_clear_cmds(old(out).bg, tex.shapes(), *loc, old(self).previous())
                } else {
                    Seq::empty()
                });
            },
            _ => {},
        }
    }

    /// Whether one of its roles equals `c`.
    pub(crate) fn has_role(&self, c: &Components) -> (r: bool)
        ensures
            r == has_component(self.comps(), *c),
    {
        contains_component(&self.components, c)
    }

    /// Its roles.
    pub(crate) fn roles(&self) -> (r: &Vec<Components>)
        ensures
            r@ == self.comps(),
    {
        &self.components
    }

    /// Registers it under `id`; if it has a location, that is where it
    /// counts as last drawn.
    pub(crate) fn place(&mut self, id: usize)
        ensures
            final(self).ident() == id,
            final(self).attrs() == old(self).attrs(),
            final(self).comps() == old(self).comps(),
            final(self).is_changed() == old(self).is_changed(),
            final(self).is_forced() == old(self).is_forced(),
            final(self).is_printed_spec() == old(self).is_printed_spec(),
            final(self).previous() == match old(self).attrs().location() {
                Some(p) => p,
                None => old(self).previous(),
            },
    {
        self.id = id;
        match self.attributes.get_Location() {
            Some(p) => {
                self.previus = *p;
            },
            None => {},
        }
    }

    /// Whether it is on screen.
    pub fn is_printed(&self) -> (r: bool)
        ensures
            r == self.is_printed_spec(),
    {
        self.printed
    }

    /// force rerender the object
    pub fn force_rerender(&mut self)
        ensures
            final(self).is_forced(),
            final(self).ident() == old(self).ident(),
            final(self).attrs() == old(self).attrs(),
            final(self).comps() == old(self).comps(),
            final(self).previous() == old(self).previous(),
            final(self).is_changed() == old(self).is_changed(),
            final(self).is_printed_spec() == old(self).is_printed_spec(),
    {
        self.force_rerender = true;
    }

    /// Same as `should_render`, written with `if let`.
    pub fn _should_render(&mut self) -> (r: ShouldRender)
        ensures
            r == old(self).decision(),
            final(self).is_forced() == (old(self).is_forced() && r != ShouldRender::ForceRerender),
            final(self).ident() == old(self).ident(),
            final(self).attrs() == old(self).attrs(),
            final(self).comps() == old(self).comps(),
            final(self).previous() == old(self).previous(),
            final(self).is_changed() == old(self).is_changed(),
            final(self).is_printed_spec() == old(self).is_printed_spec(),
    {
        if self.attributes.check_Location() && self.attributes.check_Texture() {
            if self.force_rerender {
                self.force_rerender = false;
                return ShouldRender::ForceRerender;
            }
            if self.attributes.check_Render() {
                if let Some(render) = self.attributes.get_Render() {
                    if !*render {
                        return if self.printed {
                            ShouldRender::Clear
                        } else {
                            ShouldRender::Disabled
                        };
                    }
                }
            }
            return if self.changed {
                ShouldRender::Changed
            } else {
                ShouldRender::Unchanged
            };
        }
        ShouldRender::Disabled
    }

    /// What the renderer should do with it this frame; answering a forced
    /// redraw consumes the request.
    pub fn should_render(&mut self) -> (r: ShouldRender)
        ensures
            r == old(self).decision(),
            final(self).is_forced() == (old(self).is_forced() && r != ShouldRender::ForceRerender),
            final(self).ident() == old(self).ident(),
            final(self).attrs() == old(self).attrs(),
            final(self).comps() == old(self).comps(),
            final(self).previous() == old(self).previous(),
            final(self).is_changed() == old(self).is_changed(),
            final(self).is_printed_spec() == old(self).is_printed_spec(),
    {
        if self.attributes.check_Location() && self.attributes.check_Texture() {
            if self.force_rerender {
                self.force_rerender = false;
                return ShouldRender::ForceRerender;
            }
            if self.attributes.check_Render() {
                if !*self.attributes.get_Render().unwrap() {
                    if self.printed {
                        return ShouldRender::Clear;
                    }
                    return ShouldRender::Disabled;
                }
            }
            return match self.changed {
                true => ShouldRender::Changed,
                false => ShouldRender::Unchanged,
            };
        }
        return ShouldRender::Disabled;
    }
}


/// What `print` queues for `o`.
pub open spec fn print_effect(bg: (GColor, GColor, char), o: ObjectHeader) -> Seq<CommandView> {
    match (o.attrs().location(), o.attrs().texture()) {
        (Some(loc), Some(tex)) => texture_print_cmds(bg, tex.shapes(), loc),
        _ => Seq::empty(),
    }
}

/// What `clearself` queues for `o`.
pub open spec fn clear_effect(bg: (GColor, GColor, char), o: ObjectHeader) -> Seq<CommandView> {
    match (o.attrs().location(), o.attrs().texture()) {
        (Some(loc), Some(tex)) => if o.is_printed_spec() {
            texture_clear_cmds(bg, tex.shapes(), loc, o.previous())
        } else {
            Seq::empty()
        },
        _ => Seq::empty(),
    }
}

/// The decision calls for drawing the object.
pub open spec fn draws(d: ShouldRender) -> bool {
    d == ShouldRender::ForceRerender || d == ShouldRender::Unchanged || d == ShouldRender::Changed
}

/// The decision calls for redrawing the object after erasing it.
pub open spec fn redraws(d: ShouldRender) -> bool {
    d == ShouldRender::ForceRerender || d == ShouldRender::Changed
}

/// What a full redraw queues for `o`.
pub open spec fn rerender_cmds(bg: (GColor, GColor, char), o: ObjectHeader) -> Seq<CommandView> {
    if draws(o.decision()) { print_effect(bg, o) } else { clear_effect(bg, o) }
}

/// Whether it is on screen after being erased.
pub open spec fn printed_after_clear(o: ObjectHeader) -> bool {
    o.is_printed_spec() && !(o.attrs().location() is Some && o.attrs().texture() is Some)
}

/// `new` is `old` after a full redraw.
pub open spec fn after_rerender(old: ObjectHeader, new: ObjectHeader) -> bool {
    &&& new.kept_from(&old)
    &&& if draws(old.decision()) {
        !new.is_changed() && new.is_printed_spec()
    } else {
        new.is_changed() == old.is_changed() && new.is_printed_spec() == printed_after_clear(old)
    }
}

/// What bringing `o` up to date queues.
pub open spec fn update_cmds(bg: (GColor, GColor, char), o: ObjectHeader) -> Seq<CommandView> {
    if redraws(o.decision()) {
        seq![reset_in(bg)] + clear_effect(bg, o) + print_effect(bg, o)
    } else if o.decision() == ShouldRender::Unchanged {
        Seq::empty()
    } else {
        seq![reset_in(bg)] + clear_effect(bg, o)
    }
}

/// `new` is `old` after being brought up to date.
pub open spec fn after_update(old: ObjectHeader, new: ObjectHeader) -> bool {
    &&& new.kept_from(&old)
    &&& if redraws(old.decision()) {
        !new.is_changed() && new.is_printed_spec()
    } else if old.decision() == ShouldRender::Unchanged {
        new.is_changed() == old.is_changed() && new.is_printed_spec() == old.is_printed_spec()
    } else {
        new.is_changed() == old.is_changed() && new.is_printed_spec() == printed_after_clear(old)
    }
}

impl ObjectHeader {
    /// `self` is `old` after a redraw: same identity, attributes, roles and
    /// last drawn position, the forced redraw consumed.
    pub open spec fn kept_from(&self, old: &ObjectHeader) -> bool {
        &&& self.ident() == old.ident()
        &&& self.attrs() == old.attrs()
        &&& self.comps() == old.comps()
        &&& self.previous() == old.previous()
        &&& self.is_forced() == (old.is_forced() && old.decision() != ShouldRender::ForceRerender)
    }

    /// Draws it from scratch as a full redraw does: drawn if the decision
    /// allows it, erased otherwise.
    pub fn rerender(&mut self, out: &mut Screen)
        requires
            old(self).rerender_safe(),
        ensures
            after_rerender(*old(self), *final(self)),
            final(out).same_settings(old(out)),
            final(out).queued() == old(out).queued() + rerender_cmds(old(out).bg, *old(self)),
    {
        match self.should_render() {
            ShouldRender::ForceRerender | ShouldRender::Unchanged | ShouldRender::Changed => {
                self.print(out);
            },
            ShouldRender::Clear | ShouldRender::Disabled => {
                self.clearself(out);
            },
        }
    }

    /// Brings it up to date on screen as a frame does: erased and redrawn
    /// if changed or forced, erased if it is not to be shown, left alone
    /// otherwise; each erasure starts with a colour reset.
    pub fn render_update(&mut self, out: &mut Screen)
        requires
            old(self).update_safe(),
        ensures
            after_update(*old(self), *final(self)),
            final(out).same_settings(old(out)),
            final(out).queued() == old(out).queued() + update_cmds(old(out).bg, *old(self)),
    {
        let ghost q0 = out.queued();
        match self.should_render() {
            ShouldRender::ForceRerender | ShouldRender::Changed => {
                out.reset_color();
                self.clearself(out);
                self.print(out);
                assert(out.queued() =~= q0 + seq![reset_in(old(out).bg)]
                    + clear_effect(old(out).bg, *old(self)) + print_effect(old(out).bg, *old(self)));
            },
            ShouldRender::Unchanged => {},
            ShouldRender::Disabled | ShouldRender::Clear => {
                out.reset_color();
                self.clearself(out);
                assert(out.queued() =~= q0 + seq![reset_in(old(out).bg)] + clear_effect(old(out).bg, *old(self)));
            },
        }
    }
}

/// No two roles of `comps` are the same.
pub open spec fn roles_distinct(comps: Seq<Components>) -> bool {
    forall|i: int, j: int| 0 <= i < j < comps.len() ==> !same_component(#[trigger] comps[i], #[trigger] comps[j])
}

/// Adding a role the way `with_component` does never repeats a role.
pub proof fn lemma_with_component_keeps_roles_distinct(comps: Seq<Components>, c: Components)
    requires
        roles_distinct(comps),
    ensures
        roles_distinct(with_component_seq(comps, c)),
{
    if !has_component(comps, c) {
        let r = comps.push(c);
        assert forall|i: int, j: int| 0 <= i < j < r.len() implies !same_component(#[trigger] r[i], #[trigger] r[j]) by {
            if j == comps.len() {
                assert(r[i] == comps[i]);
                assert(!same_component(comps[i], c));
            } else {
                assert(!same_component(comps[i], comps[j]));
            }
        }
    }
}

/// A forced redraw is answered once. For `o`, then `forced` (after
/// `force_rerender`), then `answered` (after `should_render`): the decision
/// is a forced redraw exactly when the object has a location and a texture,
/// and then the next decision is the one `o` would get unforced.
pub proof fn lemma_force_answered_once(o: ObjectHeader, forced: ObjectHeader, answered: ObjectHeader)
    requires
        forced.is_forced(),
        forced.attrs() == o.attrs(),
        forced.is_changed() == o.is_changed(),
        forced.is_printed_spec() == o.is_printed_spec(),
        answered.is_forced() == (forced.is_forced() && forced.decision() != ShouldRender::ForceRerender),
        answered.attrs() == forced.attrs(),
        answered.is_changed() == forced.is_changed(),
        answered.is_printed_spec() == forced.is_printed_spec(),
    ensures
        (forced.decision() == ShouldRender::ForceRerender)
            == (o.attrs().location() is Some && o.attrs().texture() is Some),
        o.attrs().location() is Some && o.attrs().texture() is Some ==> answered.decision()
            == render_decision(true, true, false, o.attrs().render(), o.is_printed_spec(), o.is_changed()),
{
}

/// Printing settles an object: once `o` (with a location and a texture) is
/// printed as `p`, the next decision is to leave it alone, unless a forced
/// redraw is pending or rendering is switched off (then it is erased).
pub proof fn lemma_print_settles(o: ObjectHeader, p: ObjectHeader)
    requires
        o.attrs().location() is Some,
        o.attrs().texture() is Some,
        p.attrs() == o.attrs(),
        p.is_forced() == o.is_forced(),
        !p.is_changed(),
        p.is_printed_spec(),
    ensures
        p.decision() == if o.is_forced() {
            ShouldRender::ForceRerender
        } else if o.attrs().render() == Some(false) {
            ShouldRender::Clear
        } else {
            ShouldRender::Unchanged
        },
{
}

/// Moving marks an object changed: after `set_cords` moves `o` (which has a
/// location other than `(x, y)` and a texture) to `m`, the decision is a
/// redraw, unless a forced redraw is pending or rendering is switched off.
pub proof fn lemma_move_marks_changed(o: ObjectHeader, m: ObjectHeader, x: i32, y: i32)
    requires
        o.attrs().location() matches Some(v) && v != (Vec2 { x, y }),
        o.attrs().texture() is Some,
        m.attrs().location() == Some(Vec2 { x, y }),
        m.attrs().same_except(&o.attrs(), true, false, false, false, false, false, false, false),
        m.is_changed(),
        m.is_forced() == o.is_forced(),
        m.is_printed_spec() == o.is_printed_spec(),
    ensures
        m.decision() == if o.is_forced() {
            ShouldRender::ForceRerender
        } else if o.attrs().render() == Some(false) {
            if o.is_printed_spec() { ShouldRender::Clear } else { ShouldRender::Disabled }
        } else {
            ShouldRender::Changed
        },
{
}

/// A full redraw that draws an object leaves nothing for the next frame:
/// if `o` is to be shown and `n` is `o` after `rerender`, bringing `n` up
/// to date queues no command.
pub proof fn lemma_redraw_then_idle(bg: (GColor, GColor, char), o: ObjectHeader, n: ObjectHeader)
    requires
        after_rerender(o, n),
        draws(o.decision()),
        o.attrs().render() != Some(false),
    ensures
        n.decision() == ShouldRender::Unchanged,
        update_cmds(bg, n) == Seq::<CommandView>::empty(),
{
}

/// A rectangle given by its top-left and bottom-right cells.
pub struct SquarePrint {
    pub tl: Vec2,
    pub br: Vec2,
}


/// A frame erases a moved object where it was drawn before drawing it at
/// its new place. For an object on screen with a location and a texture
/// whose decision is a (forced) redraw, bringing it up to date queues a
/// colour reset, then the erasure of its texture at the position it was
/// last drawn at, then its texture at its location.
pub proof fn lemma_update_erases_before_drawing(bg: (GColor, GColor, char), o: ObjectHeader)
    requires
        o.attrs().location() is Some,
        o.attrs().texture() is Some,
        o.is_printed_spec(),
        o.decision() == ShouldRender::Changed || o.decision() == ShouldRender::ForceRerender,
    ensures
        ({
            let loc = o.attrs().location()->Some_0;
            let tex = o.attrs().texture()->Some_0;
            update_cmds(bg, o) == seq![reset_in(bg)]
                + texture_clear_cmds(bg, tex.shapes(), loc, o.previous())
                + texture_print_cmds(bg, tex.shapes(), loc)
        }),
{
}

} // verus!
