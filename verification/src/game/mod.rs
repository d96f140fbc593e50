pub mod input;
pub mod logger;
pub mod screen;
pub mod systems;

use vstd::prelude::*;
use vstd::std_specs::cmp::PartialEqSpecImpl;
use crate::components::Components;
use crate::gameobject::{
    ObjectHeader, has_component, rerender_cmds, after_rerender, update_cmds,
    after_update,
};
use crate::game::input::{Input, Keys};
use crate::game::screen::{Screen, CommandView, concat_cmds, reset_in, move_to};
use crate::print::GColor;
use crate::math::Vec2;

verus! {

/// The name the game itself sends signals under.
pub const GAME_NAMESPACE: &'static str = "game";

/// `r` lists, in increasing order, exactly the indices below `n` that
/// satisfy `p`.
pub open spec fn lists_exactly(r: Seq<usize>, n: int, p: spec_fn(int) -> bool) -> bool {
    &&& forall|a: int, b: int| 0 <= a < b < r.len() ==> r[a] < r[b]
    &&& forall|a: int| 0 <= a < r.len() ==> r[a] < n && p(r[a] as int)
    &&& forall|i: int| 0 <= i < n && #[trigger] p(i) ==> r.contains(i as usize)
}

/// `objects` holds every role of `comps`, as `get_with_components` checks it:
/// both lists are non-empty and every role of one equals every role of the
/// other.
pub open spec fn matches_all(comps: Seq<Components>, objects: Seq<Components>) -> bool {
    &&& comps.len() > 0
    &&& objects.len() > 0
    &&& forall|a: int, b: int| 0 <= a < comps.len() && 0 <= b < objects.len() ==>
        crate::components::same_component(#[trigger] comps[a], #[trigger] objects[b])
}

/// Every object of the game.
pub struct World {
    pub objects: Vec<ObjectHeader>,
}

/// A full redraw of every object of `objs` stays inside `i32` arithmetic.
pub open spec fn all_rerender_safe(objs: Seq<ObjectHeader>) -> bool {
    forall|i: int| 0 <= i < objs.len() ==> (#[trigger] objs[i]).rerender_safe()
}

/// Bringing every object of `objs` up to date stays inside `i32`
/// arithmetic.
pub open spec fn all_update_safe(objs: Seq<ObjectHeader>) -> bool {
    forall|i: int| 0 <= i < objs.len() ==> (#[trigger] objs[i]).update_safe()
}

impl World {
    /// A world with no object.
    pub fn new() -> (r: Self)
        ensures
            r.objects@ == Seq::<ObjectHeader>::empty(),
    {
        World { objects: Vec::new() }
    }

    /// The object at index `idx`, to be changed in place.
    pub fn get_with_id(&mut self, idx: usize) -> (r: Option<&mut ObjectHeader>)
        ensures
            (idx < old(self).objects@.len()) == (r is Some),
            r is Some ==> *r->Some_0 == old(self).objects@[idx as int]
                && final(self).objects@ == old(self).objects@.update(idx as int, *final(r->Some_0)),
            r is None ==> final(self).objects@ == old(self).objects@,
    {
        if idx < self.objects.len() {
            Some(&mut self.objects[idx])
        } else {
            None
        }
    }

    /// The indices of the objects that have role `comp`, in order.
    pub fn get_with_component(&self, comp: &Components) -> (r: Vec<usize>)
        ensures
            lists_exactly(r@, self.objects@.len() as int, |i: int| has_component(self.objects@[i].comps(), *comp)),
    {
        let mut r: Vec<usize> = Vec::new();
        let mut i: usize = 0;
        while i < self.objects.len()
            invariant
                i <= self.objects@.len(),
                forall|a: int, b: int| 0 <= a < b < r@.len() ==> r@[a] < r@[b],
                forall|a: int| 0 <= a < r@.len() ==> r@[a] < i && has_component(self.objects@[r@[a] as int].comps(), *comp),
                forall|j: int| 0 <= j < i && has_component(self.objects@[j].comps(), *comp) ==> r@.contains(j as usize),
            decreases self.objects@.len() - i,
        {
            if self.objects[i].has_role(comp) {
                let ghost before = r@;
                r.push(i);
                assert forall|j: int| 0 <= j < i + 1 && has_component(self.objects@[j].comps(), *comp) implies r@.contains(j as usize) by {
                    if j < i {
                        let t = choose|t: int| 0 <= t < before.len() && before[t] == j as usize;
                        assert(r@[t] == j as usize);
                    } else {
                        assert(r@[before.len() as int] == j as usize);
                    }
                }
            }
            i = i + 1;
        }
        r
    }

    /// The indices of the objects whose roles pass the test `matches_all`
    /// against `comp`, in order.
    pub fn get_with_components(&self, comp: Vec<Components>) -> (r: Vec<usize>)
        ensures
            lists_exactly(r@, self.objects@.len() as int, |i: int| matches_all(comp@, self.objects@[i].comps())),
    {
        let mut r: Vec<usize> = Vec::new();
        let mut i: usize = 0;
        while i < self.objects.len()
            invariant
                i <= self.objects@.len(),
                forall|a: int, b: int| 0 <= a < b < r@.len() ==> r@[a] < r@[b],
                forall|a: int| 0 <= a < r@.len() ==> r@[a] < i && matches_all(comp@, self.objects@[r@[a] as int].comps()),
                forall|j: int| 0 <= j < i && matches_all(comp@, self.objects@[j].comps()) ==> r@.contains(j as usize),
            decreases self.objects@.len() - i,
        {
            if Self::has_all(&comp, self.objects[i].roles()) {
                let ghost before = r@;
                r.push(i);
                assert forall|j: int| 0 <= j < i + 1 && matches_all(comp@, self.objects@[j].comps()) implies r@.contains(j as usize) by {
                    if j < i {
                        let t = choose|t: int| 0 <= t < before.len() && before[t] == j as usize;
                        assert(r@[t] == j as usize);
                    } else {
                        assert(r@[before.len() as int] == j as usize);
                    }
                }
            }
            i = i + 1;
        }
        r
    }

    fn has_all(comp: &Vec<Components>, objs: &Vec<Components>) -> (r: bool)
        ensures
            r == matches_all(comp@, objs@),
    {
        let mut complete = false;
        let mut a: usize = 0;
        while a < comp.len()
            invariant
                a <= comp@.len(),
                complete == (a > 0 && objs@.len() > 0),
                forall|x: int, y: int| 0 <= x < a && 0 <= y < objs@.len() ==>
                    crate::components::same_component(#[trigger] comp@[x], #[trigger] objs@[y]),
            decreases comp@.len() - a,
        {
            let mut b: usize = 0;
            while b < objs.len()
                invariant
                    a < comp@.len(),
                    b <= objs@.len(),
                    complete == ((a > 0 || b > 0) && objs@.len() > 0),
                    forall|x: int, y: int| 0 <= x < a && 0 <= y < objs@.len() ==>
                        crate::components::same_component(#[trigger] comp@[x], #[trigger] objs@[y]),
                    forall|y: int| 0 <= y < b ==> crate::components::same_component(comp@[a as int], #[trigger] objs@[y]),
                decreases objs@.len() - b,
            {
                if comp[a] == objs[b] {
                    complete = true;
                    b = b + 1;
                } else {
                    return false;
                }
            }
            a = a + 1;
        }
        complete
    }

    /// The index of the first object with role `comp`, if any.
    pub fn query_comp(&self, comp: Components) -> (r: Option<usize>)
        ensures
            r matches Some(i) ==> i < self.objects@.len() && has_component(self.objects@[i as int].comps(), comp)
                && forall|j: int| 0 <= j < i ==> !has_component(#[trigger] self.objects@[j].comps(), comp),
            r is None ==> forall|j: int| 0 <= j < self.objects@.len() ==> !has_component(#[trigger] self.objects@[j].comps(), comp),
    {
        let mut i: usize = 0;
        while i < self.objects.len()
            invariant
                i <= self.objects@.len(),
                forall|j: int| 0 <= j < i ==> !has_component(#[trigger] self.objects@[j].comps(), comp),
            decreases self.objects@.len() - i,
        {
            if self.objects[i].has_role(&comp) {
                return Some(i);
            }
            i = i + 1;
        }
        None
    }

    /// Adds an object; its id is its index, and if it has a location that is
    /// where it counts as last drawn. Returns the id.
    pub fn insert_object_head(&mut self, header: ObjectHeader) -> (r: usize)
        ensures
            r == old(self).objects@.len(),
            final(self).objects@.len() == old(self).objects@.len() + 1,
            forall|i: int| 0 <= i < r ==> final(self).objects@[i] == old(self).objects@[i],
            ({
                let o = final(self).objects@[r as int];
                &&& o.ident() == r
                &&& o.attrs() == header.attrs()
                &&& o.comps() == header.comps()
                &&& o.is_changed() == header.is_changed()
                &&& o.is_forced() == header.is_forced()
                &&& o.is_printed_spec() == header.is_printed_spec()
                &&& o.previous() == match header.attrs().location() {
                    Some(p) => p,
                    None => header.previous(),
                }
            }),
    {
        let mut o = header;
        let id = self.objects.len();
        o.place(id);
        self.objects.push(o);
        id
    }

    /// Applies `map` to every object, once each, in order: object `j`
    /// becomes what the call of `map` on it (through `os[j]` in `ensures`)
    /// made of it.
    pub fn map_objects<F: FnMut(&mut ObjectHeader)>(&mut self, mut map: F)
        requires
            forall|o: &mut ObjectHeader| call_requires(map, (o,)),
        ensures
            final(self).objects@.len() == old(self).objects@.len(),
            exists|os: Seq<&mut ObjectHeader>| #![trigger os.len()] {
                &&& os.len() == old(self).objects@.len()
                &&& forall|j: int| 0 <= j < old(self).objects@.len() ==> {
                    &&& *os[j] == old(self).objects@[j]
                    &&& *final(os[j]) == final(self).objects@[j]
                    &&& call_ensures(map, (os[j],), ())
                }
            },
    {
        let ghost orig = self.objects@;
        let ghost f = map;
        let mut i: usize = 0;
        assert(exists|os: Seq<&mut ObjectHeader>| #![trigger os.len()] os.len() == 0) by {
            assert(Seq::<&mut ObjectHeader>::empty().len() == 0);
        }
        while i < self.objects.len()
            invariant
                i <= self.objects@.len(),
                self.objects@.len() == orig.len(),
                orig == old(self).objects@,
                map == f,
                forall|o: &mut ObjectHeader| call_requires(map, (o,)),
                forall|j: int| i <= j < self.objects@.len() ==> self.objects@[j] == orig[j],
                exists|os: Seq<&mut ObjectHeader>| #![trigger os.len()] {
                    &&& os.len() == i
                    &&& forall|j: int| 0 <= j < i ==> {
                        &&& *os[j] == orig[j]
                        &&& *final(os[j]) == self.objects@[j]
                        &&& call_ensures(f, (os[j],), ())
                    }
                },
            decreases self.objects@.len() - i,
        {
            let ghost pre = self.objects@;
            map(&mut self.objects[i]);
            assert(map == f);
            assert(exists|os: Seq<&mut ObjectHeader>| #![trigger os.len()] {
                &&& os.len() == i + 1
                &&& forall|j: int| 0 <= j < i + 1 ==> {
                    &&& *os[j] == orig[j]
                    &&& *final(os[j]) == self.objects@[j]
                    &&& call_ensures(f, (os[j],), ())
                }
            }) by {
                let os = choose|os: Seq<&mut ObjectHeader>| #![trigger os.len()] {
                    &&& os.len() == i
                    &&& forall|j: int| 0 <= j < i ==> {
                        &&& *os[j] == orig[j]
                        &&& *final(os[j]) == pre[j]
                        &&& call_ensures(f, (os[j],), ())
                    }
                };
                assert(os.len() == i);
                assert(exists|o: &mut ObjectHeader| #![trigger call_ensures(f, (o,), ())] *o == pre[i as int]
                    && *final(o) == self.objects@[i as int] && call_ensures(f, (o,), ()));
                let w = choose|o: &mut ObjectHeader| *o == pre[i as int] && *final(o) == self.objects@[i as int]
                    && call_ensures(f, (o,), ());
                let os2 = os.push(w);
                assert(os2.len() == i + 1);
                assert(*w == pre[i as int]);
                assert forall|j: int| 0 <= j < i + 1 implies {
                    &&& *os2[j] == orig[j]
                    &&& *final(os2[j]) == self.objects@[j]
                    &&& call_ensures(f, (os2[j],), ())
                } by {
                    if j < i {
                        assert(os2[j] == os[j]);
                        assert(pre[j] == self.objects@[j]);
                    }
                }
            }
            i = i + 1;
        }
    }

    /// Whether a full redraw stays inside `i32` arithmetic (see
    /// `all_rerender_safe`).
    pub fn can_rerender_all(&self) -> (r: bool)
        ensures
            r == all_rerender_safe(self.objects@),
    {
        let mut i: usize = 0;
        while i < self.objects.len()
            invariant
                i <= self.objects@.len(),
                forall|j: int| 0 <= j < i ==> (#[trigger] self.objects@[j]).rerender_safe(),
            decreases self.objects@.len() - i,
        {
            if !self.objects[i].can_rerender() {
                return false;
            }
            i = i + 1;
        }
        true
    }

    /// Whether bringing every object up to date stays inside `i32`
    /// arithmetic (see `all_update_safe`).
    pub fn can_update_all(&self) -> (r: bool)
        ensures
            r == all_update_safe(self.objects@),
    {
        let mut i: usize = 0;
        while i < self.objects.len()
            invariant
                i <= self.objects@.len(),
                forall|j: int| 0 <= j < i ==> (#[trigger] self.objects@[j]).update_safe(),
            decreases self.objects@.len() - i,
        {
            if !self.objects[i].can_update() {
                return false;
            }
            i = i + 1;
        }
        true
    }

    /// Redraws every object from scratch on a cleared terminal of `column`
    /// by `line` cells.
    pub fn rerender_all(&mut self, out: &mut Screen, column: u16, line: u16)
        requires
            old(out).bg.0 != GColor::Default,
            old(out).bg.1 != GColor::Default,
            column * line <= u16::MAX,
            all_rerender_safe(old(self).objects@),
        ensures
            final(out).same_settings(old(out)),
            final(out).queued() == old(out).queued() + seq![
                CommandView::ClearAll,
                move_to(0, 0),
                CommandView::SetBackground(old(out).bg.0),
                CommandView::SetForeground(old(out).bg.1),
                CommandView::Fill(old(out).bg.2 as u32, (column * line) as nat),
            ] + concat_cmds(old(self).objects@.len(), |i: int| rerender_cmds(old(out).bg, old(self).objects@[i])),
            final(self).objects@.len() == old(self).objects@.len(),
            forall|i: int| 0 <= i < old(self).objects@.len() ==>
                after_rerender(#[trigger] old(self).objects@[i], final(self).objects@[i]),
    {
        out.clear_bg(column, line);
        let ghost q1 = out.queued();
        let ghost bg = out.bg;
        let ghost objs = self.objects@;
        let ghost f = |i: int| rerender_cmds(bg, objs[i]);
        let mut i: usize = 0;
        while i < self.objects.len()
            invariant
                i <= self.objects@.len(),
                self.objects@.len() == objs.len(),
                all_rerender_safe(objs),
                out.bg == bg,
                out.same_settings(old(out)),
                f == (|i: int| rerender_cmds(bg, objs[i])),
                out.queued() == q1 + concat_cmds(i as nat, f),
                forall|j: int| i <= j < objs.len() ==> self.objects@[j] == objs[j],
                forall|j: int| 0 <= j < i ==> after_rerender(#[trigger] objs[j], self.objects@[j]),
            decreases self.objects@.len() - i,
        {
            let ghost before = out.queued();
            assert(objs[i as int].rerender_safe());
            self.objects[i].rerender(out);
            proof {
                crate::print::lemma_concat_cmds_step(i as nat, f);
            }
            assert(out.queued() =~= before + f(i as int));
            i = i + 1;
        }
    }

    /// Brings every object up to date on screen, each after a colour reset;
    /// when the terminal was resized only the resets are queued and the
    /// answer asks for a full redraw (unless there is no object).
    pub fn render_changes(&mut self, out: &mut Screen, resized: bool) -> (r: bool)
        requires
            !resized ==> all_update_safe(old(self).objects@),
        ensures
            r == (resized && old(self).objects@.len() > 0),
            final(out).same_settings(old(out)),
            final(out).queued() == old(out).queued() + concat_cmds(
                old(self).objects@.len(),
                |i: int| seq![reset_in(old(out).bg)] + if resized {
                    Seq::<CommandView>::empty()
                } else {
                    update_cmds(old(out).bg, old(self).objects@[i])
                },
            ),
            final(self).objects@.len() == old(self).objects@.len(),
            resized ==> final(self).objects@ == old(self).objects@,
            !resized ==> forall|i: int| 0 <= i < old(self).objects@.len() ==>
                after_update(#[trigger] old(self).objects@[i], final(self).objects@[i]),
    {
        let ghost q0 = out.queued();
        let ghost bg = out.bg;
        let ghost objs = self.objects@;
        let ghost f = |i: int| seq![reset_in(bg)] + if resized {
            Seq::<CommandView>::empty()
        } else {
            update_cmds(bg, objs[i])
        };
        let mut rerender = false;
        let mut i: usize = 0;
        while i < self.objects.len()
            invariant
                i <= self.objects@.len(),
                self.objects@.len() == objs.len(),
                !resized ==> all_update_safe(objs),
                out.bg == bg,
                out.same_settings(old(out)),
                q0 == old(out).queued(),
                rerender == (resized && i > 0),
                f == (|i: int| seq![reset_in(bg)] + if resized {
                    Seq::<CommandView>::empty()
                } else {
                    update_cmds(bg, objs[i])
                }),
                out.queued() == q0 + concat_cmds(i as nat, f),
                forall|j: int| i <= j < objs.len() ==> self.objects@[j] == objs[j],
                resized ==> self.objects@ == objs,
                !resized ==> forall|j: int| 0 <= j < i ==> after_update(#[trigger] objs[j], self.objects@[j]),
            decreases self.objects@.len() - i,
        {
            let ghost before = out.queued();
            out.reset_color();
            if resized {
                rerender = true;
            } else {
                assert(objs[i as int].update_safe());
                self.objects[i].render_update(out);
            }
            proof {
                crate::print::lemma_concat_cmds_step(i as nat, f);
            }
            assert(out.queued() =~= before + f(i as int));
            i = i + 1;
        }
        rerender
    }
}

/// Ids are places: if the id of every object of the world is its index,
/// adding an object as `insert_object_head` does (`after` is the world's
/// objects afterwards, `r` the id it answered) keeps it so.
pub proof fn lemma_insert_keeps_ids(before: Seq<ObjectHeader>, after: Seq<ObjectHeader>, r: usize)
    requires
        forall|i: int| 0 <= i < before.len() ==> (#[trigger] before[i]).ident() == i,
        r == before.len(),
        after.len() == before.len() + 1,
        forall|i: int| 0 <= i < r ==> after[i] == before[i],
        after[r as int].ident() == r,
    ensures
        forall|i: int| 0 <= i < after.len() ==> (#[trigger] after[i]).ident() == i,
{
    assert forall|i: int| 0 <= i < after.len() implies (#[trigger] after[i]).ident() == i by {
        if i < r {
            assert(after[i] == before[i]);
        }
    }
}

/// Switches that steer the game loop.
#[derive(Debug, Hash)]
pub enum Flags {
    Debug,
    Rerender,
    Resized,
    ForceRerender,
    Custom(String),
}

/// A flag with its name taken by value.
pub enum FlagView {
    Debug,
    Rerender,
    Resized,
    ForceRerender,
    Custom(Seq<char>),
}

/// What a flag stands for.
pub open spec fn flag_view(f: Flags) -> FlagView {
    match f {
        Flags::Debug => FlagView::Debug,
        Flags::Rerender => FlagView::Rerender,
        Flags::Resized => FlagView::Resized,
        Flags::ForceRerender => FlagView::ForceRerender,
        Flags::Custom(s) => FlagView::Custom(s@),
    }
}

impl PartialEq for Flags {
    fn eq(&self, other: &Self) -> (r: bool) {
        match (self, other) {
            (Flags::Debug, Flags::Debug) => true,
            (Flags::Rerender, Flags::Rerender) => true,
            (Flags::Resized, Flags::Resized) => true,
            (Flags::ForceRerender, Flags::ForceRerender) => true,
            (Flags::Custom(a), Flags::Custom(b)) => *a == *b,
            _ => false,
        }
    }
}

impl PartialEqSpecImpl for Flags {
    open spec fn obeys_eq_spec() -> bool {
        true
    }

    open spec fn eq_spec(&self, other: &Self) -> bool {
        flag_view(*self) == flag_view(*other)
    }
}

impl Eq for Flags {}

/// A set of flags.
#[derive(Debug)]
pub struct FlagSet {
    flags: Vec<Flags>,
}

/// What each flag of `fs` stands for, in order.
pub open spec fn flag_views(fs: Seq<Flags>) -> Seq<FlagView> {
    Seq::new(fs.len(), |i: int| flag_view(fs[i]))
}

impl View for FlagSet {
    type V = Set<FlagView>;

    closed spec fn view(&self) -> Set<FlagView> {
        flag_views(self.flags@).to_set()
    }
}

impl FlagSet {
    #[verifier::type_invariant]
    closed spec fn inv(self) -> bool {
        flag_views(self.flags@).no_duplicates()
    }

    /// The empty set.
    pub fn new() -> (r: Self)
        ensures
            r@ == Set::<FlagView>::empty(),
    {
        let r = FlagSet { flags: Vec::new() };
        assert(flag_views(r.flags@).to_set() =~= Set::<FlagView>::empty());
        r
    }

    fn index_of(&self, f: &Flags) -> (r: Option<usize>)
        ensures
            r matches Some(i) ==> i < self.flags@.len() && flag_views(self.flags@)[i as int] == flag_view(*f),
            r is None ==> !flag_views(self.flags@).contains(flag_view(*f)),
    {
        let mut i: usize = 0;
        while i < self.flags.len()
            invariant
                i <= self.flags@.len(),
                forall|j: int| 0 <= j < i ==> flag_views(self.flags@)[j] != flag_view(*f),
            decreases self.flags@.len() - i,
        {
            if self.flags[i] == *f {
                return Some(i);
            }
            i = i + 1;
        }
        None
    }

    /// Whether `flag` is set.
    pub fn contains(&self, flag: &Flags) -> (r: bool)
        ensures
            r == self@.contains(flag_view(*flag)),
    {
        match self.index_of(flag) {
            Some(i) => {
                assert(flag_views(self.flags@).contains(flag_view(*flag)));
                true
            },
            None => false,
        }
    }

    /// Sets `flag`.
    pub fn insert(&mut self, flag: Flags)
        ensures
            final(self)@ == old(self)@.insert(flag_view(flag)),
    {
        proof { use_type_invariant(&*self); }
        if self.index_of(&flag).is_some() {
            assert(old(self)@.insert(flag_view(flag)) =~= old(self)@);
        } else {
            let mut fs: Vec<Flags> = Vec::new();
            std::mem::swap(&mut fs, &mut self.flags);
            let ghost before = flag_views(fs@);
            let ghost fv = flag_view(flag);
            fs.push(flag);
            proof {
                let after = flag_views(fs@);
                assert(after =~= before.push(fv));
                assert(after.no_duplicates()) by {
                    assert forall|i: int, j: int| 0 <= i < j < after.len() implies after[i] != after[j] by {
                        if j == before.len() {
                            assert(before.contains(before[i]));
                        }
                    }
                }
                assert forall|x: FlagView| after.contains(x) <==> (before.contains(x) || x == fv) by {
                    if after.contains(x) {
                        let t = choose|t: int| 0 <= t < after.len() && after[t] == x;
                        if t < before.len() {
                            assert(before[t] == x);
                        }
                    }
                    if before.contains(x) {
                        let t = choose|t: int| 0 <= t < before.len() && before[t] == x;
                        assert(after[t] == x);
                    }
                    if x == fv {
                        assert(after[before.len() as int] == x);
                    }
                }
                assert(after.to_set() =~= before.to_set().insert(fv));
            }
            std::mem::swap(&mut fs, &mut self.flags);
        }
    }

    /// Clears `flag`.
    pub fn remove(&mut self, flag: &Flags)
        ensures
            final(self)@ == old(self)@.remove(flag_view(*flag)),
    {
        proof { use_type_invariant(&*self); }
        match self.index_of(flag) {
            Some(i) => {
                let mut fs: Vec<Flags> = Vec::new();
                std::mem::swap(&mut fs, &mut self.flags);
                let ghost before = flag_views(fs@);
                let ghost k = flag_view(*flag);
                fs.remove(i);
                proof {
                    let after = flag_views(fs@);
                    assert(after =~= before.remove(i as int));
                    assert(after.no_duplicates()) by {
                        assert forall|a: int, b: int| 0 <= a < b < after.len() implies after[a] != after[b] by {
                            let a2 = if a < i { a } else { a + 1 };
                            let b2 = if b < i { b } else { b + 1 };
                            assert(after[a] == before[a2]);
                            assert(after[b] == before[b2]);
                        }
                    }
                    assert forall|x: FlagView| after.contains(x) <==> before.to_set().remove(k).contains(x) by {
                        if x == k {
                            if after.contains(x) {
                                let t = choose|t: int| 0 <= t < after.len() && after[t] == x;
                                let t2 = if t < i { t } else { t + 1 };
                                assert(before[t2] == x);
                            }
                        } else if before.contains(x) {
                            let t = choose|t: int| 0 <= t < before.len() && before[t] == x;
                            assert(t != i);
                            let t2 = if t < i { t } else { t - 1 };
                            assert(after[t2] == x);
                        }
                    }
                    assert(after.to_set() =~= before.to_set().remove(k));
                }
                std::mem::swap(&mut fs, &mut self.flags);
            },
            None => {
                assert(old(self)@.remove(flag_view(*flag)) =~= old(self)@);
            },
        }
    }

    /// Sets the flags the keys pressed this frame ask for: F4 the debug
    /// flag, F5 a full redraw.
    pub fn organize(&mut self, input: &Input)
        ensures
            final(self)@ == {
                let a = if input.just_pressed().contains(Keys::Debug) { old(self)@.insert(FlagView::Debug) } else { old(self)@ };
                if input.just_pressed().contains(Keys::Refresh) { a.insert(FlagView::Rerender) } else { a }
            },
    {
        if input.was_just_pressed(&Keys::Debug) {
            self.insert(Flags::Debug);
        }
        if input.was_just_pressed(&Keys::Refresh) {
            self.insert(Flags::Rerender);
        }
    }
}

/// What the window title shows after a frame.
#[derive(Debug, Clone, Copy, PartialEq, Eq, Structural)]
pub enum TitleUpdate {
    /// Leave it as it is.
    Keep,
    /// The plain title.
    Plain,
    /// The title with the frame statistics.
    Stats,
}

/// The flag that records that the debug overlay is on.
pub open spec fn overlay_flag() -> FlagView {
    FlagView::Custom("d"@)
}

impl FlagSet {
    /// Steps the debug overlay: the debug flag toggles it (the custom flag
    /// "d" records that it is on) and is consumed; while it is on, the
    /// title shows the frame statistics.
    pub fn debug_title_step(&mut self) -> (r: TitleUpdate)
        ensures
            old(self)@.contains(FlagView::Debug) && old(self)@.contains(overlay_flag()) ==> r == TitleUpdate::Plain
                && final(self)@ == old(self)@.remove(FlagView::Debug).remove(overlay_flag()),
            old(self)@.contains(FlagView::Debug) && !old(self)@.contains(overlay_flag()) ==> r == TitleUpdate::Stats
                && final(self)@ == old(self)@.remove(FlagView::Debug).insert(overlay_flag()),
            !old(self)@.contains(FlagView::Debug) && old(self)@.contains(overlay_flag()) ==> r == TitleUpdate::Stats
                && final(self)@ == old(self)@,
            !old(self)@.contains(FlagView::Debug) && !old(self)@.contains(overlay_flag()) ==> r == TitleUpdate::Keep
                && final(self)@ == old(self)@,
    {
        proof {
            reveal_strlit("d");
        }
        let overlay = Flags::Custom("d".to_owned());
        assert(flag_view(overlay) == overlay_flag());
        if self.contains(&Flags::Debug) {
            let r = if self.contains(&overlay) {
                self.remove(&overlay);
                TitleUpdate::Plain
            } else {
                self.insert(overlay);
                TitleUpdate::Stats
            };
            self.remove(&Flags::Debug);
            assert(old(self)@.remove(FlagView::Debug).remove(overlay_flag()) =~= old(self)@.remove(overlay_flag()).remove(FlagView::Debug));
            assert(old(self)@.remove(FlagView::Debug).insert(overlay_flag()) =~= old(self)@.insert(overlay_flag()).remove(FlagView::Debug));
            r
        } else if self.contains(&overlay) {
            self.insert(overlay);
            assert(old(self)@.insert(overlay_flag()) =~= old(self)@);
            TitleUpdate::Stats
        } else {
            TitleUpdate::Keep
        }
    }

    /// Answers whether a full redraw was asked for (plain or forced), and
    /// consumes both requests.
    pub fn take_redraw(&mut self) -> (r: bool)
        ensures
            r == (old(self)@.contains(FlagView::Rerender) || old(self)@.contains(FlagView::ForceRerender)),
            r ==> final(self)@ == old(self)@.remove(FlagView::Rerender).remove(FlagView::ForceRerender),
            !r ==> final(self)@ == old(self)@,
    {
        if self.contains(&Flags::Rerender) || self.contains(&Flags::ForceRerender) {
            self.remove(&Flags::Rerender);
            self.remove(&Flags::ForceRerender);
            true
        } else {
            false
        }
    }
}

/// Takes the terminal size measured at the start of a frame: if it differs
/// from the one the screen knows, the screen takes it and the flags record
/// the resize and ask for a full redraw. Answers whether the size changed
/// (then a resize signal is due).
pub fn apply_resize(flags: &mut FlagSet, screen: &mut Screen, size: Vec2) -> (r: bool)
    ensures
        r == (size != old(screen).screen),
        final(screen).screen == size,
        final(screen).posy == old(screen).posy,
        final(screen).bg == old(screen).bg,
        final(screen).title_view() == old(screen).title_view(),
        final(screen).queued() == old(screen).queued(),
        r ==> final(flags)@ == old(flags)@.insert(FlagView::Resized).insert(FlagView::Rerender),
        !r ==> final(flags)@ == old(flags)@,
{
    if size != screen.screen {
        flags.insert(Flags::Resized);
        flags.insert(Flags::Rerender);
        screen.screen = size;
        true
    } else {
        false
    }
}

} // verus!
