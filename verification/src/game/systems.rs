use vstd::prelude::*;
use std::any::Any;
use crate::game::lists_exactly;
use crate::text::str_eq;

verus! {

/// What a signal carries; its receiver knows the type.
#[verifier::external_body]
pub struct SignalPayload(pub Box<dyn Any + Send>);

/// A signal on its way: its name, the system it is addressed to, and what
/// it carries.
pub struct Message {
    pub hint: String,
    pub target: String,
    pub msg: SignalPayload,
}

/// `c` is a lowercase hexadecimal digit.
pub open spec fn is_lower_hex(c: char) -> bool {
    ('0' <= c && c <= '9') || ('a' <= c && c <= 'f')
}

/// `s` is a version-4 UUID written as 32 lowercase hex digits in groups of
/// 8, 4, 4, 4 and 12 separated by hyphens.
pub open spec fn is_uuid_name(s: Seq<char>) -> bool {
    &&& s.len() == 36
    &&& forall|i: int|
        0 <= i < 36 ==> if i == 8 || i == 13 || i == 18 || i == 23 {
            s[i] == '-'
        } else {
            is_lower_hex(#[trigger] s[i])
        }
    &&& s[14] == '4'
}

/// Calls `uuid::Uuid::new_v4` and formats the result with its `Display`
/// impl, which writes the hyphenated lowercase form. The digits are random;
/// only their layout and the version digit are stated.
#[verifier::external_body]
fn random_name() -> (r: String)
    ensures
        is_uuid_name(r@),
{
    uuid::Uuid::new_v4().to_string()
}

/// The texts held in `v`.
pub open spec fn names_of(v: Seq<String>) -> Set<Seq<char>> {
    Set::new(|n: Seq<char>| exists|i: int| 0 <= i < v.len() && #[trigger] v[i]@ == n)
}

/// The texts of `v`, in order.
pub open spec fn string_views(v: Seq<String>) -> Seq<Seq<char>> {
    Seq::new(v.len(), |i: int| v[i]@)
}

/// Whether some text of `v` equals `s`.
fn holds_name(v: &Vec<String>, s: &str) -> (r: bool)
    ensures
        r == names_of(v@).contains(s@),
{
    let mut i: usize = 0;
    while i < v.len()
        invariant
            i <= v@.len(),
            forall|j: int| 0 <= j < i ==> (#[trigger] v@[j])@ != s@,
        decreases v@.len() - i,
    {
        if str_eq(v[i].as_str(), s) {
            assert(v@[i as int]@ == s@);
            return true;
        }
        i = i + 1;
    }
    false
}

/// Adding a text to a list adds it to the texts held.
proof fn lemma_names_push(v: Seq<String>, x: String)
    ensures
        names_of(v.push(x)) == names_of(v).insert(x@),
{
    let after = v.push(x);
    assert forall|n: Seq<char>| names_of(after).contains(n) <==> names_of(v).insert(x@).contains(n) by {
        if names_of(after).contains(n) {
            let k = choose|k: int| 0 <= k < after.len() && #[trigger] after[k]@ == n;
            if k < v.len() {
                assert(v[k]@ == n);
            }
        }
        if names_of(v).contains(n) {
            let k = choose|k: int| 0 <= k < v.len() && #[trigger] v[k]@ == n;
            assert(after[k]@ == n);
        }
        if n == x@ {
            assert(after[v.len() as int]@ == n);
        }
    }
    assert(names_of(after) =~= names_of(v).insert(x@));
}

/// `v` without the texts equal to `s`, and whether there was one.
fn without_name(v: &Vec<String>, s: &str) -> (r: (Vec<String>, bool))
    ensures
        names_of(r.0@) == names_of(v@).remove(s@),
        r.1 == names_of(v@).contains(s@),
{
    let mut kept: Vec<String> = Vec::new();
    let mut found = false;
    let mut i: usize = 0;
    assert(names_of(kept@) =~= names_of(v@.subrange(0, 0)).remove(s@));
    while i < v.len()
        invariant
            i <= v@.len(),
            names_of(kept@) == names_of(v@.subrange(0, i as int)).remove(s@),
            found == names_of(v@.subrange(0, i as int)).contains(s@),
        decreases v@.len() - i,
    {
        let t = v[i].clone();
        let ghost before = kept@;
        let ghost pre = v@.subrange(0, i as int);
        proof {
            assert(v@.subrange(0, i + 1) =~= pre.push(v@[i as int]));
            lemma_names_push(pre, v@[i as int]);
        }
        if str_eq(t.as_str(), s) {
            found = true;
            assert(names_of(pre).insert(s@).remove(s@) =~= names_of(pre).remove(s@));
        } else {
            kept.push(t);
            proof {
                lemma_names_push(before, t);
                assert(names_of(pre).remove(s@).insert(t@) =~= names_of(pre).insert(t@).remove(s@));
            }
        }
        i = i + 1;
    }
    assert(v@.subrange(0, v@.len() as int) =~= v@);
    (kept, found)
}

/// One system of the game: its name, whether it was set up, is switched on
/// or destroyed, the signals it listens to, and its behaviour `fun`.
pub struct System<F> {
    pub(crate) _name: String,
    pub fun: F,
    _init: bool,
    _active: bool,
    pub(crate) destroyed: bool,
    _registered_signals: Vec<String>,
}

impl<F> System<F> {
    /// Its name.
    pub closed spec fn name(&self) -> Seq<char> {
        self._name@
    }

    /// Its behaviour.
    pub closed spec fn behaviour(&self) -> F {
        self.fun
    }

    /// Whether it was set up.
    pub closed spec fn initialized(&self) -> bool {
        self._init
    }

    /// Whether it was switched on.
    pub closed spec fn switched_on(&self) -> bool {
        self._active
    }

    /// Whether it was destroyed.
    pub closed spec fn is_destroyed(&self) -> bool {
        self.destroyed
    }

    /// The signals it listens to.
    pub closed spec fn signals(&self) -> Set<Seq<char>> {
        names_of(self._registered_signals@)
    }

    /// `self` is `other` but perhaps for the set-up, switch and destroyed
    /// marks and the signals.
    pub open spec fn same_system(&self, other: &System<F>) -> bool {
        self.name() == other.name() && self.behaviour() == other.behaviour()
    }

    /// A system named `name` with behaviour `sys`, not set up yet, switched
    /// on if `active`, listening to no signal.
    pub fn new(name: String, sys: F, active: bool) -> (r: Self)
        ensures
            r.name() == name@,
            r.behaviour() == sys,
            !r.initialized(),
            r.switched_on() == active,
            !r.is_destroyed(),
            r.signals() == Set::<Seq<char>>::empty(),
    {
        let r = System {
            _name: name,
            fun: sys,
            _init: false,
            _active: active,
            destroyed: false,
            _registered_signals: Vec::new(),
        };
        assert(r.signals() =~= Set::<Seq<char>>::empty());
        r
    }

    /// Its name.
    pub fn system_name(&self) -> (r: &str)
        ensures
            r@ == self.name(),
    {
        self._name.as_str()
    }

    /// Switches it on and marks it set up. Answers whether it still has to
    /// be set up, that is whether this is its first activation.
    pub fn activate(&mut self) -> (needs_setup: bool)
        ensures
            needs_setup == !old(self).initialized(),
            final(self).switched_on(),
            final(self).initialized(),
            final(self).same_system(old(self)),
            final(self).is_destroyed() == old(self).is_destroyed(),
            final(self).signals() == old(self).signals(),
    {
        self._active = true;
        if !self._init {
            self._init = true;
            true
        } else {
            false
        }
    }

    /// Switches it off.
    pub fn deactivate(&mut self) -> (r: bool)
        ensures
            r,
            !final(self).switched_on(),
            final(self).initialized() == old(self).initialized(),
            final(self).same_system(old(self)),
            final(self).is_destroyed() == old(self).is_destroyed(),
            final(self).signals() == old(self).signals(),
    {
        self._active = false;
        true
    }

    /// Whether it runs: switched on and not destroyed.
    pub fn is_active(&self) -> (r: bool)
        ensures
            r == (self.switched_on() && !self.is_destroyed()),
    {
        if self.destroyed {
            false
        } else {
            self._active
        }
    }

    /// Whether it was set up.
    pub fn is_init(&self) -> (r: bool)
        ensures
            r == self.initialized(),
    {
        self._init
    }

    /// Listens to `sig`; answers whether it did not already.
    pub fn register_signal(&mut self, sig: String) -> (r: bool)
        ensures
            r == !old(self).signals().contains(sig@),
            final(self).signals() == old(self).signals().insert(sig@),
            final(self).same_system(old(self)),
            final(self).initialized() == old(self).initialized(),
            final(self).switched_on() == old(self).switched_on(),
            final(self).is_destroyed() == old(self).is_destroyed(),
    {
        if holds_name(&self._registered_signals, sig.as_str()) {
            assert(old(self).signals().insert(sig@) =~= old(self).signals());
            false
        } else {
            let ghost before = self._registered_signals@;
            let ghost added = sig;
            self._registered_signals.push(sig);
            proof {
                lemma_names_push(before, added);
            }
            true
        }
    }

    /// Marks it destroyed: it no longer runs.
    pub fn destroy(&mut self)
        ensures
            final(self).is_destroyed(),
            final(self).same_system(old(self)),
            final(self).initialized() == old(self).initialized(),
            final(self).switched_on() == old(self).switched_on(),
            final(self).signals() == old(self).signals(),
    {
        self.destroyed = true;
    }

    /// Stops listening to `sig`; answers whether it did.
    pub fn unregister_signal(&mut self, sig: String) -> (r: bool)
        ensures
            r == old(self).signals().contains(sig@),
            final(self).signals() == old(self).signals().remove(sig@),
            final(self).same_system(old(self)),
            final(self).initialized() == old(self).initialized(),
            final(self).switched_on() == old(self).switched_on(),
            final(self).is_destroyed() == old(self).is_destroyed(),
    {
        let (kept, found) = without_name(&self._registered_signals, sig.as_str());
        self._registered_signals = kept;
        found
    }
}

/// Builds a system: its behaviour and a name, random unless given.
pub struct SystemBuilder<F> {
    _name: String,
    fun: F,
}

impl<F> SystemBuilder<F> {
    /// Its name.
    pub closed spec fn name(&self) -> Seq<char> {
        self._name@
    }

    /// Its behaviour.
    pub closed spec fn behaviour(&self) -> F {
        self.fun
    }

    /// A builder for behaviour `sys`, named by a fresh random UUID.
    pub fn new(sys: F) -> (r: Self)
        ensures
            is_uuid_name(r.name()),
            r.behaviour() == sys,
    {
        SystemBuilder { _name: random_name(), fun: sys }
    }

    /// Names the system `name`.
    pub fn with_name(self, name: String) -> (r: Self)
        ensures
            r.name() == name@,
            r.behaviour() == self.behaviour(),
    {
        let mut s = self;
        s._name = name;
        s
    }

    /// The system: switched off, not set up, listening to no signal.
    pub fn build(self) -> (r: System<F>)
        ensures
            r.name() == self.name(),
            r.behaviour() == self.behaviour(),
            !r.initialized(),
            !r.switched_on(),
            !r.is_destroyed(),
            r.signals() == Set::<Seq<char>>::empty(),
    {
        System::new(self._name, self.fun, false)
    }
}

/// `i` is the first place in `reg` of a system named `n`.
pub open spec fn is_first_named<F>(reg: Seq<System<F>>, n: Seq<char>, i: int) -> bool {
    &&& 0 <= i < reg.len()
    &&& reg[i].name() == n
    &&& forall|j: int| 0 <= j < i ==> (#[trigger] reg[j]).name() != n
}

/// `reg` holds a system named `n`.
pub open spec fn has_named<F>(reg: Seq<System<F>>, n: Seq<char>) -> bool {
    exists|i: int| 0 <= i < reg.len() && (#[trigger] reg[i]).name() == n
}

/// The first place in `reg` of a system named `n` (meaningful when there is
/// one).
pub open spec fn first_named<F>(reg: Seq<System<F>>, n: Seq<char>) -> int {
    choose|i: int| is_first_named(reg, n, i)
}

/// No two systems of `reg` share a name.
pub open spec fn names_unique<F>(reg: Seq<System<F>>) -> bool {
    forall|i: int, j: int| 0 <= i < j < reg.len() ==> (#[trigger] reg[i]).name() != (#[trigger] reg[j]).name()
}

/// `reg` after adding `s`: it takes the place of the system of the same
/// name, if there is one, and goes last otherwise.
pub open spec fn with_system<F>(reg: Seq<System<F>>, s: System<F>) -> Seq<System<F>> {
    if has_named(reg, s.name()) {
        reg.update(first_named(reg, s.name()), s)
    } else {
        reg.push(s)
    }
}

/// Where a system named `n` lands when added to `reg`.
pub open spec fn slot<F>(reg: Seq<System<F>>, n: Seq<char>) -> int {
    if has_named(reg, n) { first_named(reg, n) } else { reg.len() as int }
}

/// The names of the systems of `reg` that listen to `sig`, in order.
pub open spec fn registered_names<F>(reg: Seq<System<F>>, sig: Seq<char>) -> Seq<Seq<char>>
    decreases reg.len(),
{
    if reg.len() == 0 {
        Seq::empty()
    } else {
        let rest = registered_names(reg.drop_last(), sig);
        if reg.last().signals().contains(sig) {
            rest.push(reg.last().name())
        } else {
            rest
        }
    }
}

/// There is one first place of a name.
pub proof fn lemma_first_named_unique<F>(reg: Seq<System<F>>, n: Seq<char>, i: int)
    requires
        is_first_named(reg, n, i),
    ensures
        has_named(reg, n),
        first_named(reg, n) == i,
{
    assert(reg[i].name() == n);
    let c = first_named(reg, n);
    assert(is_first_named(reg, n, c));
    if c < i {
        assert(reg[c].name() != n);
    } else if c > i {
        assert(reg[i].name() != n);
    }
}

/// A name that is somewhere in `reg` has a first place.
pub proof fn lemma_has_first_named<F>(reg: Seq<System<F>>, n: Seq<char>)
    requires
        has_named(reg, n),
    ensures
        is_first_named(reg, n, first_named(reg, n)),
    decreases reg.len(),
{
    let w = choose|i: int| 0 <= i < reg.len() && (#[trigger] reg[i]).name() == n;
    if exists|j: int| 0 <= j < w && (#[trigger] reg[j]).name() == n {
        let j = choose|j: int| 0 <= j < w && (#[trigger] reg[j]).name() == n;
        let shorter = reg.subrange(0, w);
        assert(shorter[j].name() == n);
        lemma_has_first_named(shorter, n);
        let f = first_named(shorter, n);
        assert(is_first_named(reg, n, f)) by {
            assert forall|k: int| 0 <= k < f implies (#[trigger] reg[k]).name() != n by {
                assert(shorter[k].name() != n);
            }
        }
    } else {
        assert(is_first_named(reg, n, w));
    }
}

/// Adding a system keeps the names of a registry distinct.
pub proof fn lemma_with_system_keeps_names_unique<F>(reg: Seq<System<F>>, s: System<F>)
    requires
        names_unique(reg),
    ensures
        names_unique(with_system(reg, s)),
{
    let r = with_system(reg, s);
    if has_named(reg, s.name()) {
        lemma_has_first_named(reg, s.name());
        let f = first_named(reg, s.name());
        assert forall|i: int, j: int| 0 <= i < j < r.len() implies (#[trigger] r[i]).name() != (#[trigger] r[j]).name() by {
            if i == f {
                assert(reg[f].name() == s.name());
                assert(reg[j].name() != reg[f].name());
            } else if j == f {
                assert(reg[i].name() != reg[f].name());
            } else {
                assert(reg[i].name() != reg[j].name());
            }
        }
    } else {
        assert forall|i: int, j: int| 0 <= i < j < r.len() implies (#[trigger] r[i]).name() != (#[trigger] r[j]).name() by {
            if j == reg.len() {
                assert(reg[i].name() != s.name());
            } else {
                assert(reg[i].name() != reg[j].name());
            }
        }
    }
}

/// A signal name the registry does not know: there is no system of that
/// name.
pub enum SystemError {
    NoSuchSystem,
}

/// The systems of the game, by name, and the signals waiting to be
/// delivered.
pub struct Systems<F> {
    pub(crate) sys: Vec<System<F>>,
    pub(crate) pending_signals: Vec<Message>,
}

impl<F> Systems<F> {
    /// The systems, in the order they were first added.
    pub closed spec fn registry(&self) -> Seq<System<F>> {
        self.sys@
    }

    /// The signals waiting to be delivered, oldest first.
    pub closed spec fn pending(&self) -> Seq<Message> {
        self.pending_signals@
    }

    /// No system and no signal.
    pub fn new() -> (r: Self)
        ensures
            r.registry() == Seq::<System<F>>::empty(),
            r.pending() == Seq::<Message>::empty(),
    {
        Systems { sys: Vec::new(), pending_signals: Vec::new() }
    }

    /// The place of the first system named `name`, if any.
    fn find(&self, name: &str) -> (r: Option<usize>)
        ensures
            r matches Some(i) ==> is_first_named(self.registry(), name@, i as int),
            r is None ==> !has_named(self.registry(), name@),
    {
        let mut i: usize = 0;
        while i < self.sys.len()
            invariant
                i <= self.sys@.len(),
                forall|j: int| 0 <= j < i ==> (#[trigger] self.sys@[j]).name() != name@,
            decreases self.sys@.len() - i,
        {
            if str_eq(self.sys[i]._name.as_str(), name) {
                return Some(i);
            }
            i = i + 1;
        }
        None
    }

    /// Adds system `s`, in place of the one of the same name if there is one.
    pub fn push_system(&mut self, s: System<F>)
        ensures
            final(self).registry() == with_system(old(self).registry(), s),
            final(self).pending() == old(self).pending(),
    {
        match self.find(s._name.as_str()) {
            Some(i) => {
                proof {
                    lemma_first_named_unique(self.sys@, s.name(), i as int);
                }
                self.sys.set(i, s);
            },
            None => {
                self.sys.push(s);
            },
        }
    }

    /// Adds a system named `name` with behaviour `s`, switched on if
    /// `active`, in place of the one of the same name if there is one.
    pub fn new_system(&mut self, s: F, name: String, active: bool)
        ensures
            ({
                let b = final(self).registry()[slot(old(self).registry(), name@)];
                &&& b.name() == name@
                &&& b.behaviour() == s
                &&& !b.initialized()
                &&& b.switched_on() == active
                &&& !b.is_destroyed()
                &&& b.signals() == Set::<Seq<char>>::empty()
                &&& final(self).registry() == with_system(old(self).registry(), b)
            }),
            final(self).pending() == old(self).pending(),
    {
        let sys = System::new(name, s, active);
        proof {
            if has_named(self.sys@, sys.name()) {
                lemma_has_first_named(self.sys@, sys.name());
            }
        }
        self.push_system(sys);
    }

    /// Adds the system that `s` builds.
    pub fn push_system_builder(&mut self, s: SystemBuilder<F>)
        ensures
            ({
                let b = final(self).registry()[slot(old(self).registry(), s.name())];
                &&& b.name() == s.name()
                &&& b.behaviour() == s.behaviour()
                &&& !b.initialized()
                &&& !b.switched_on()
                &&& !b.is_destroyed()
                &&& b.signals() == Set::<Seq<char>>::empty()
                &&& final(self).registry() == with_system(old(self).registry(), b)
            }),
            final(self).pending() == old(self).pending(),
    {
        let b = s.build();
        proof {
            if has_named(self.sys@, b.name()) {
                lemma_has_first_named(self.sys@, b.name());
            }
        }
        self.push_system(b);
    }

    /// Queues signal `hint` for system `to`, carrying `msg`.
    pub fn send_signal(&mut self, hint: &str, to: &str, msg: SignalPayload)
        ensures
            final(self).registry() == old(self).registry(),
            final(self).pending().len() == old(self).pending().len() + 1,
            final(self).pending().take(old(self).pending().len() as int) == old(self).pending(),
            final(self).pending().last().hint@ == hint@,
            final(self).pending().last().target@ == to@,
            final(self).pending().last().msg == msg,
    {
        let m = Message { hint: hint.to_owned(), target: to.to_owned(), msg };
        self.pending_signals.push(m);
        assert(self.pending_signals@.take(old(self).pending_signals@.len() as int) =~= old(self).pending_signals@);
    }

    /// Makes the system named `sys_name` listen to `sig_name`; fails if
    /// there is no such system.
    pub fn register_signal(&mut self, sys_name: &str, sig_name: &str) -> (r: Result<(), SystemError>)
        ensures
            r is Ok == has_named(old(self).registry(), sys_name@),
            final(self).pending() == old(self).pending(),
            final(self).registry().len() == old(self).registry().len(),
            r is Err ==> final(self).registry() == old(self).registry(),
            r is Ok ==> {
                let i = first_named(old(self).registry(), sys_name@);
                &&& final(self).registry()[i].signals() == old(self).registry()[i].signals().insert(sig_name@)
                &&& final(self).registry()[i].same_system(&old(self).registry()[i])
                &&& final(self).registry()[i].initialized() == old(self).registry()[i].initialized()
                &&& final(self).registry()[i].switched_on() == old(self).registry()[i].switched_on()
                &&& final(self).registry()[i].is_destroyed() == old(self).registry()[i].is_destroyed()
                &&& forall|j: int| 0 <= j < old(self).registry().len() && j != i ==>
                    final(self).registry()[j] == old(self).registry()[j]
            },
    {
        match self.find(sys_name) {
            Some(i) => {
                proof {
                    lemma_first_named_unique(self.sys@, sys_name@, i as int);
                }
                self.sys[i].register_signal(sig_name.to_owned());
                Ok(())
            },
            None => Err(SystemError::NoSuchSystem),
        }
    }

    /// Makes the system named `sys_name` stop listening to `sig_name`;
    /// fails if there is no such system.
    pub fn unregister_signal(&mut self, sys_name: &str, sig_name: &str) -> (r: Result<(), SystemError>)
        ensures
            r is Ok == has_named(old(self).registry(), sys_name@),
            final(self).pending() == old(self).pending(),
            final(self).registry().len() == old(self).registry().len(),
            r is Err ==> final(self).registry() == old(self).registry(),
            r is Ok ==> {
                let i = first_named(old(self).registry(), sys_name@);
                &&& final(self).registry()[i].signals() == old(self).registry()[i].signals().remove(sig_name@)
                &&& final(self).registry()[i].same_system(&old(self).registry()[i])
                &&& final(self).registry()[i].initialized() == old(self).registry()[i].initialized()
                &&& final(self).registry()[i].switched_on() == old(self).registry()[i].switched_on()
                &&& final(self).registry()[i].is_destroyed() == old(self).registry()[i].is_destroyed()
                &&& forall|j: int| 0 <= j < old(self).registry().len() && j != i ==>
                    final(self).registry()[j] == old(self).registry()[j]
            },
    {
        match self.find(sys_name) {
            Some(i) => {
                proof {
                    lemma_first_named_unique(self.sys@, sys_name@, i as int);
                }
                self.sys[i].unregister_signal(sig_name.to_owned());
                Ok(())
            },
            None => Err(SystemError::NoSuchSystem),
        }
    }

    /// The names of the systems listening to `sig_name`, in order.
    pub fn get_system_with_registered(&self, sig_name: &String) -> (r: Vec<String>)
        ensures
            string_views(r@) == registered_names(self.registry(), sig_name@),
    {
        let mut r: Vec<String> = Vec::new();
        let mut i: usize = 0;
        while i < self.sys.len()
            invariant
                i <= self.sys@.len(),
                string_views(r@) == registered_names(self.sys@.subrange(0, i as int), sig_name@),
            decreases self.sys@.len() - i,
        {
            let ghost before = r@;
            let ghost pre = self.sys@.subrange(0, i as int);
            let ghost cur = self.sys@.subrange(0, i + 1);
            assert(cur.drop_last() =~= pre);
            assert(cur.last() == self.sys@[i as int]);
            if holds_name(&self.sys[i]._registered_signals, sig_name.as_str()) {
                r.push(self.sys[i]._name.clone());
                assert(string_views(r@) =~= string_views(before).push(self.sys@[i as int].name()));
            }
            i = i + 1;
        }
        assert(self.sys@.subrange(0, self.sys@.len() as int) =~= self.sys@);
        r
    }

    /// The first system named `name`, to be changed in place.
    pub fn get_system_with_name(&mut self, name: String) -> (r: Option<&mut System<F>>)
        ensures
            r is Some == has_named(old(self).registry(), name@),
            r is Some ==> {
                let i = first_named(old(self).registry(), name@);
                &&& *r->Some_0 == old(self).registry()[i]
                &&& final(self).registry() == old(self).registry().update(i, *final(r->Some_0))
                &&& final(self).pending() == old(self).pending()
            },
            r is None ==> final(self).registry() == old(self).registry() && final(self).pending() == old(self).pending(),
    {
        match self.find(name.as_str()) {
            Some(i) => {
                proof {
                    lemma_first_named_unique(self.sys@, name@, i as int);
                }
                Some(&mut self.sys[i])
            },
            None => None,
        }
    }

    /// How many systems there are.
    pub fn system_count(&self) -> (r: usize)
        ensures
            r == self.registry().len(),
    {
        self.sys.len()
    }

    /// The system at place `i`, to be changed in place.
    pub fn system_at(&mut self, i: usize) -> (r: Option<&mut System<F>>)
        ensures
            r is Some == (i < old(self).registry().len()),
            r is Some ==> *r->Some_0 == old(self).registry()[i as int]
                && final(self).registry() == old(self).registry().update(i as int, *final(r->Some_0))
                && final(self).pending() == old(self).pending(),
            r is None ==> final(self).registry() == old(self).registry() && final(self).pending() == old(self).pending(),
    {
        if i < self.sys.len() {
            Some(&mut self.sys[i])
        } else {
            None
        }
    }

    /// Where signal `msg` goes, as places in the registry: to the system it
    /// is addressed to, if there is one; otherwise to every system that
    /// listens to its name, in order.
    pub fn signal_recipients(&self, msg: &Message) -> (r: Vec<usize>)
        ensures
            has_named(self.registry(), msg.target@) ==> r@.len() == 1
                && r@[0] == first_named(self.registry(), msg.target@),
            !has_named(self.registry(), msg.target@) ==> lists_exactly(
                r@,
                self.registry().len() as int,
                |j: int| self.registry()[j].signals().contains(msg.hint@),
            ),
    {
        match self.find(msg.target.as_str()) {
            Some(i) => {
                proof {
                    lemma_first_named_unique(self.sys@, msg.target@, i as int);
                }
                let mut r: Vec<usize> = Vec::new();
                r.push(i);
                r
            },
            None => {
                let mut r: Vec<usize> = Vec::new();
                let mut i: usize = 0;
                while i < self.sys.len()
                    invariant
                        i <= self.sys@.len(),
                        forall|a: int, b: int| 0 <= a < b < r@.len() ==> r@[a] < r@[b],
                        forall|a: int| 0 <= a < r@.len() ==> r@[a] < i
                            && self.sys@[r@[a] as int].signals().contains(msg.hint@),
                        forall|j: int| 0 <= j < i && (#[trigger] self.sys@[j]).signals().contains(msg.hint@)
                            ==> r@.contains(j as usize),
                    decreases self.sys@.len() - i,
                {
                    if holds_name(&self.sys[i]._registered_signals, msg.hint.as_str()) {
                        let ghost before = r@;
                        r.push(i);
                        assert forall|j: int| 0 <= j < i + 1 && (#[trigger] self.sys@[j]).signals().contains(msg.hint@)
                            implies r@.contains(j as usize) by {
                            if j < i {
                                let t = choose|t: int| 0 <= t < before.len() && before[t] == j as usize;
                                assert(r@[t] == j as usize);
                            } else {
                                assert(r@[before.len() as int] == j as usize);
                            }
                        }
                    }
                    i = i + 1;
                }
                r
            },
        }
    }

    /// The signals waiting, oldest first; none is left waiting.
    pub fn take_signals(&mut self) -> (r: Vec<Message>)
        ensures
            r@ == old(self).pending(),
            final(self).pending() == Seq::<Message>::empty(),
            final(self).registry() == old(self).registry(),
    {
        let mut r: Vec<Message> = Vec::new();
        std::mem::swap(&mut r, &mut self.pending_signals);
        r
    }
}

} // verus!
