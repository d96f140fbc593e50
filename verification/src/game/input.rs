use vstd::prelude::*;
use vstd::std_specs::convert::FromSpecImpl;
use std::time::Duration;
use crate::text::str_eq;

verus! {

/// keys for the game
#[derive(Hash, PartialEq, Eq, Structural, Debug, Clone, Copy)]
pub enum Keys {
    Up,
    Down,
    Left,
    Right,
    Esc,
    Debug,
    Refresh,
    Null,
    Space,
    E,
    Q,
    R,
    T,
}

/// A key as the terminal reports it.
#[derive(PartialEq, Eq, Structural, Debug, Clone, Copy)]
pub enum KeyCode {
    Left,
    Right,
    Up,
    Down,
    Char(char),
    Esc,
    /// A function key, by number.
    F(u8),
    /// Any other key.
    Other,
}

/// What happened to a key.
#[derive(PartialEq, Eq, Structural, Debug, Clone, Copy)]
pub enum KeyEventKind {
    Press,
    Repeat,
    Release,
}

/// The game key a typed character stands for.
pub open spec fn key_of_char(c: char) -> Keys {
    if c == 'w' || c == 'W' { Keys::Up }
    else if c == 's' || c == 'S' { Keys::Down }
    else if c == 'a' || c == 'A' { Keys::Left }
    else if c == 'd' || c == 'D' { Keys::Right }
    else if c == 'e' || c == 'E' { Keys::E }
    else if c == 'q' || c == 'Q' { Keys::Q }
    else if c == 'r' || c == 'R' { Keys::R }
    else if c == 't' || c == 'T' { Keys::T }
    else if c == ' ' { Keys::Space }
    else { Keys::Null }
}

/// The game key a terminal key stands for: arrows and WASD move, F4 is
/// debug, F5 refresh.
pub open spec fn key_of_code(k: KeyCode) -> Keys {
    match k {
        KeyCode::Left => Keys::Left,
        KeyCode::Right => Keys::Right,
        KeyCode::Up => Keys::Up,
        KeyCode::Down => Keys::Down,
        KeyCode::Char(c) => key_of_char(c),
        KeyCode::Esc => Keys::Esc,
        KeyCode::F(n) => if n == 4 { Keys::Debug } else if n == 5 { Keys::Refresh } else { Keys::Null },
        KeyCode::Other => Keys::Null,
    }
}

impl From<KeyCode> for Keys {
    fn from(value: KeyCode) -> (r: Self) {
        match value {
            KeyCode::Left => Keys::Left,
            KeyCode::Right => Keys::Right,
            KeyCode::Up => Keys::Up,
            KeyCode::Down => Keys::Down,
            KeyCode::Char(c) => {
                if c == 'w' || c == 'W' { Keys::Up }
                else if c == 's' || c == 'S' { Keys::Down }
                else if c == 'a' || c == 'A' { Keys::Left }
                else if c == 'd' || c == 'D' { Keys::Right }
                else if c == 'e' || c == 'E' { Keys::E }
                else if c == 'q' || c == 'Q' { Keys::Q }
                else if c == 'r' || c == 'R' { Keys::R }
                else if c == 't' || c == 'T' { Keys::T }
                else if c == ' ' { Keys::Space }
                else { Keys::Null }
            },
            KeyCode::Esc => Keys::Esc,
            KeyCode::F(n) => if n == 4 { Keys::Debug } else if n == 5 { Keys::Refresh } else { Keys::Null },
            KeyCode::Other => Keys::Null,
        }
    }
}

impl FromSpecImpl<KeyCode> for Keys {
    open spec fn obeys_from_spec() -> bool {
        true
    }

    open spec fn from_spec(v: KeyCode) -> Keys {
        key_of_code(v)
    }
}

/// The key a script names: "Esc", "Space", "Up", "Down", "Left", "Right",
/// "E", "Q", "R" or "T".
pub open spec fn key_named(name: Seq<char>) -> Option<Keys> {
    if name == "Esc"@ { Some(Keys::Esc) }
    else if name == "Space"@ { Some(Keys::Space) }
    else if name == "Up"@ { Some(Keys::Up) }
    else if name == "Down"@ { Some(Keys::Down) }
    else if name == "Left"@ { Some(Keys::Left) }
    else if name == "Right"@ { Some(Keys::Right) }
    else if name == "E"@ { Some(Keys::E) }
    else if name == "Q"@ { Some(Keys::Q) }
    else if name == "R"@ { Some(Keys::R) }
    else if name == "T"@ { Some(Keys::T) }
    else { None }
}

impl Keys {
    /// The key a script names, if any.
    pub fn from_name(name: &str) -> (r: Option<Keys>)
        ensures
            r == key_named(name@),
    {
        if str_eq(name, "Esc") { Some(Keys::Esc) }
        else if str_eq(name, "Space") { Some(Keys::Space) }
        else if str_eq(name, "Up") { Some(Keys::Up) }
        else if str_eq(name, "Down") { Some(Keys::Down) }
        else if str_eq(name, "Left") { Some(Keys::Left) }
        else if str_eq(name, "Right") { Some(Keys::Right) }
        else if str_eq(name, "E") { Some(Keys::E) }
        else if str_eq(name, "Q") { Some(Keys::Q) }
        else if str_eq(name, "R") { Some(Keys::R) }
        else if str_eq(name, "T") { Some(Keys::T) }
        else { None }
    }
}

/// A set of keys.
#[derive(Debug)]
pub struct KeySet {
    keys: Vec<Keys>,
}

impl View for KeySet {
    type V = Set<Keys>;

    closed spec fn view(&self) -> Set<Keys> {
        self.keys@.to_set()
    }
}

impl Clone for KeySet {
    fn clone(&self) -> (r: Self)
        ensures
            r@ == self@,
    {
        proof { use_type_invariant(self); }
        let mut keys: Vec<Keys> = Vec::new();
        let mut i: usize = 0;
        while i < self.keys.len()
            invariant
                i <= self.keys@.len(),
                keys@ == self.keys@.subrange(0, i as int),
            decreases self.keys@.len() - i,
        {
            keys.push(self.keys[i]);
            i = i + 1;
        }
        assert(keys@ =~= self.keys@);
        KeySet { keys }
    }
}

impl KeySet {
    #[verifier::type_invariant]
    closed spec fn inv(self) -> bool {
        self.keys@.no_duplicates()
    }

    /// The empty set.
    pub fn new() -> (r: Self)
        ensures
            r@ == Set::<Keys>::empty(),
    {
        let r = KeySet { keys: Vec::new() };
        assert(r.keys@.to_set() =~= Set::<Keys>::empty());
        r
    }

    fn index_of(&self, k: &Keys) -> (r: Option<usize>)
        ensures
            r matches Some(i) ==> i < self.keys@.len() && self.keys@[i as int] == *k,
            r is None ==> !self.keys@.contains(*k),
    {
        let mut i: usize = 0;
        while i < self.keys.len()
            invariant
                i <= self.keys@.len(),
                forall|j: int| 0 <= j < i ==> self.keys@[j] != *k,
            decreases self.keys@.len() - i,
        {
            if self.keys[i] == *k {
                return Some(i);
            }
            i = i + 1;
        }
        None
    }

    /// Whether `k` is in the set.
    pub fn contains(&self, k: &Keys) -> (r: bool)
        ensures
            r == self@.contains(*k),
    {
        self.index_of(k).is_some()
    }

    /// Adds `k`; tells whether it was new.
    pub fn insert(&mut self, k: Keys) -> (r: bool)
        ensures
            final(self)@ == old(self)@.insert(k),
            r == !old(self)@.contains(k),
    {
        proof { use_type_invariant(&*self); }
        if self.index_of(&k).is_some() {
            assert(old(self)@.insert(k) =~= old(self)@);
            false
        } else {
            let mut ks: Vec<Keys> = Vec::new();
            std::mem::swap(&mut ks, &mut self.keys);
            let ghost before = ks@;
            ks.push(k);
            proof {
                assert(ks@.no_duplicates()) by {
                    assert forall|i: int, j: int| 0 <= i < j < ks@.len() implies ks@[i] != ks@[j] by {
                        if j == before.len() {
                            assert(before.contains(before[i]));
                        }
                    }
                }
                assert forall|x: Keys| ks@.contains(x) <==> (before.contains(x) || x == k) by {
                    if ks@.contains(x) {
                        let t = choose|t: int| 0 <= t < ks@.len() && ks@[t] == x;
                        if t < before.len() {
                            assert(before[t] == x);
                        }
                    }
                    if before.contains(x) {
                        let t = choose|t: int| 0 <= t < before.len() && before[t] == x;
                        assert(ks@[t] == x);
                    }
                    if x == k {
                        assert(ks@[before.len() as int] == x);
                    }
                }
                assert(ks@.to_set() =~= before.to_set().insert(k));
            }
            std::mem::swap(&mut ks, &mut self.keys);
            true
        }
    }

    /// Removes `k`; tells whether it was there.
    pub fn remove(&mut self, k: &Keys) -> (r: bool)
        ensures
            final(self)@ == old(self)@.remove(*k),
            r == old(self)@.contains(*k),
    {
        proof { use_type_invariant(&*self); }
        match self.index_of(k) {
            Some(i) => {
                let mut ks: Vec<Keys> = Vec::new();
                std::mem::swap(&mut ks, &mut self.keys);
                let ghost before = ks@;
                ks.remove(i);
                proof {
                    assert(ks@ == before.remove(i as int));
                    assert(ks@.no_duplicates()) by {
                        assert forall|a: int, b: int| 0 <= a < b < ks@.len() implies ks@[a] != ks@[b] by {
                            let a2 = if a < i { a } else { a + 1 };
                            let b2 = if b < i { b } else { b + 1 };
                            assert(ks@[a] == before[a2]);
                            assert(ks@[b] == before[b2]);
                        }
                    }
                    assert forall|x: Keys| ks@.to_set().contains(x) <==> before.to_set().remove(*k).contains(x) by {
                        if x == *k {
                            if ks@.contains(x) {
                                let t = choose|t: int| 0 <= t < ks@.len() && ks@[t] == x;
                                let t2 = if t < i { t } else { t + 1 };
                                assert(before[t2] == x);
                            }
                        } else if before.contains(x) {
                            let t = choose|t: int| 0 <= t < before.len() && before[t] == x;
                            assert(t != i);
                            let t2 = if t < i { t } else { t - 1 };
                            assert(ks@[t2] == x);
                        }
                    }
                    assert(ks@.to_set() =~= before.to_set().remove(*k));
                }
                std::mem::swap(&mut ks, &mut self.keys);
                true
            },
            None => {
                assert(old(self)@.remove(*k) =~= old(self)@);
                false
            },
        }
    }

    /// Empties the set.
    pub fn clear(&mut self)
        ensures
            final(self)@ == Set::<Keys>::empty(),
    {
        let mut ks: Vec<Keys> = Vec::new();
        std::mem::swap(&mut ks, &mut self.keys);
        assert(self.keys@.to_set() =~= Set::<Keys>::empty());
    }
}

/// The keys held down and the keys pressed since the last frame.
pub struct Input {
    pub pressed_keys: KeySet,
    pub just_pressed_keys: KeySet,
    pub(crate) poll_timeout: Duration,
}

impl Input {
    /// Keys held down.
    pub closed spec fn pressed(&self) -> Set<Keys> {
        self.pressed_keys@
    }

    /// Keys pressed since the last frame.
    pub closed spec fn just_pressed(&self) -> Set<Keys> {
        self.just_pressed_keys@
    }

    /// How long one poll for terminal events waits.
    pub closed spec fn timeout(&self) -> Duration {
        self.poll_timeout
    }

    /// No key held or pressed; polls wait `timeout`.
    pub fn new(timeout: Duration) -> (r: Self)
        ensures
            r.pressed() == Set::<Keys>::empty(),
            r.just_pressed() == Set::<Keys>::empty(),
            r.timeout() == timeout,
    {
        Self { pressed_keys: KeySet::new(), just_pressed_keys: KeySet::new(), poll_timeout: timeout }
    }

    /// How long one poll for terminal events waits.
    pub fn poll_timeout(&self) -> (r: Duration)
        ensures
            r == self.timeout(),
    {
        self.poll_timeout
    }

    /// Records one key event: a press holds the key and marks it pressed
    /// this frame, a repeat holds it, a release lets it go.
    pub fn handle_key(&mut self, code: Keys, kind: KeyEventKind)
        ensures
            final(self).timeout() == old(self).timeout(),
            kind == KeyEventKind::Press ==> final(self).pressed() == old(self).pressed().insert(code)
                && final(self).just_pressed() == old(self).just_pressed().insert(code),
            kind == KeyEventKind::Repeat ==> final(self).pressed() == old(self).pressed().insert(code)
                && final(self).just_pressed() == old(self).just_pressed(),
            kind == KeyEventKind::Release ==> final(self).pressed() == old(self).pressed().remove(code)
                && final(self).just_pressed() == old(self).just_pressed(),
    {
        match kind {
            KeyEventKind::Press => {
                self.just_pressed_keys.insert(code);
                self.pressed_keys.insert(code);
            },
            KeyEventKind::Repeat => {
                self.pressed_keys.insert(code);
            },
            KeyEventKind::Release => {
                self.pressed_keys.remove(&code);
            },
        }
    }

    /// Forgets the keys pressed this frame.
    pub fn end_frame(&mut self)
        ensures
            final(self).pressed() == old(self).pressed(),
            final(self).just_pressed() == Set::<Keys>::empty(),
            final(self).timeout() == old(self).timeout(),
    {
        self.just_pressed_keys.clear();
    }

    /// Whether `k` was pressed this frame.
    pub(crate) fn was_just_pressed(&self, k: &Keys) -> (r: bool)
        ensures
            r == self.just_pressed().contains(*k),
    {
        self.just_pressed_keys.contains(k)
    }

    /// Whether the key named `name` is held down; an unknown name is not.
    pub fn is_key_pressed(&self, name: &str) -> (r: bool)
        ensures
            r == (key_named(name@) matches Some(k) && self.pressed().contains(k)),
    {
        match Keys::from_name(name) {
            Some(k) => self.pressed_keys.contains(&k),
            None => false,
        }
    }

    /// Whether the key named `name` was pressed this frame; an unknown name
    /// was not.
    pub fn is_key_just_pressed(&self, name: &str) -> (r: bool)
        ensures
            r == (key_named(name@) matches Some(k) && self.just_pressed().contains(k)),
    {
        match Keys::from_name(name) {
            Some(k) => self.just_pressed_keys.contains(&k),
            None => false,
        }
    }
}

/// A key pressed and then released within a frame is no longer held, still
/// counts as pressed this frame, and is forgotten when the frame ends. The
/// inputs are the states after `handle_key` with a press, then with a
/// release, then after `end_frame`.
pub proof fn lemma_press_release_frame(i0: Input, i1: Input, i2: Input, i3: Input, k: Keys)
    requires
        i1.pressed() == i0.pressed().insert(k),
        i1.just_pressed() == i0.just_pressed().insert(k),
        i2.pressed() == i1.pressed().remove(k),
        i2.just_pressed() == i1.just_pressed(),
        i3.pressed() == i2.pressed(),
        i3.just_pressed() == Set::<Keys>::empty(),
    ensures
        !i2.pressed().contains(k),
        i2.just_pressed().contains(k),
        !i3.just_pressed().contains(k),
        i3.pressed() == i0.pressed().remove(k),
{
    assert(i2.pressed() =~= i0.pressed().remove(k));
}


/// The letters W, A, S and D (in either case) steer like the arrow keys, and
/// no other character does: a character gives the same key as the up arrow
/// exactly when it is 'w' or 'W', and likewise 'a' left, 's' down, 'd'
/// right.
pub proof fn lemma_wasd_steers_like_arrows(c: char)
    ensures
        (key_of_code(KeyCode::Char(c)) == key_of_code(KeyCode::Up)) <==> (c == 'w' || c == 'W'),
        (key_of_code(KeyCode::Char(c)) == key_of_code(KeyCode::Left)) <==> (c == 'a' || c == 'A'),
        (key_of_code(KeyCode::Char(c)) == key_of_code(KeyCode::Down)) <==> (c == 's' || c == 'S'),
        (key_of_code(KeyCode::Char(c)) == key_of_code(KeyCode::Right)) <==> (c == 'd' || c == 'D'),
{
}

} // verus!
