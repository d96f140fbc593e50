use vstd::prelude::*;
use vstd::std_specs::cmp::PartialEqSpecImpl;
use std::any::Any;
use crate::math::Vec2;
use crate::physics::AABB;
use crate::print::GameTexture;
use crate::text::str_eq;

verus! {

/// The roles an object can play; `Custom` ones are told apart by name.
#[derive(Debug)]
pub enum Components {
    Player,
    BulletPlayer,
    Enemy,
    BulletEnemy,
    Wall,
    AreaSquare,
    /// for dropped objects that needs reallocation
    Destroyed,
    Custom(String),
}

/// Two roles are the same when they are the same variant and, for custom
/// roles, have the same name.
pub open spec fn same_component(a: Components, b: Components) -> bool {
    match (a, b) {
        (Components::Player, Components::Player) => true,
        (Components::BulletPlayer, Components::BulletPlayer) => true,
        (Components::Enemy, Components::Enemy) => true,
        (Components::BulletEnemy, Components::BulletEnemy) => true,
        (Components::Wall, Components::Wall) => true,
        (Components::AreaSquare, Components::AreaSquare) => true,
        (Components::Destroyed, Components::Destroyed) => true,
        (Components::Custom(x), Components::Custom(y)) => x@ == y@,
        _ => false,
    }
}

impl PartialEq for Components {
    fn eq(&self, other: &Self) -> (r: bool) {
        match (self, other) {
            (Components::Player, Components::Player) => true,
            (Components::BulletPlayer, Components::BulletPlayer) => true,
            (Components::Enemy, Components::Enemy) => true,
            (Components::BulletEnemy, Components::BulletEnemy) => true,
            (Components::Wall, Components::Wall) => true,
            (Components::AreaSquare, Components::AreaSquare) => true,
            (Components::Destroyed, Components::Destroyed) => true,
            (Components::Custom(x), Components::Custom(y)) => *x == *y,
            _ => false,
        }
    }
}

impl PartialEqSpecImpl for Components {
    open spec fn obeys_eq_spec() -> bool {
        true
    }

    open spec fn eq_spec(&self, other: &Self) -> bool {
        same_component(*self, *other)
    }
}

impl Eq for Components {}

/// The built-in role whose variant name is `name`, if there is one.
pub open spec fn builtin_component(name: Seq<char>) -> Option<Components> {
    if name == "AreaSquare"@ {
        Some(Components::AreaSquare)
    } else if name == "BulletEnemy"@ {
        Some(Components::BulletEnemy)
    } else if name == "BulletPlayer"@ {
        Some(Components::BulletPlayer)
    } else if name == "Destroyed"@ {
        Some(Components::Destroyed)
    } else if name == "Enemy"@ {
        Some(Components::Enemy)
    } else if name == "Player"@ {
        Some(Components::Player)
    } else if name == "Wall"@ {
        Some(Components::Wall)
    } else {
        None
    }
}

/// `c` is the custom role named `name`.
pub open spec fn is_custom_named(c: Components, name: Seq<char>) -> bool {
    c matches Components::Custom(s) && s@ == name
}

impl Components {
    /// The custom role named `c`.
    pub fn custom(c: &str) -> (r: Self)
        ensures
            is_custom_named(r, c@),
    {
        Components::Custom(c.to_owned())
    }

    /// The role whose variant name is `c`; any other name gives the custom
    /// role of that name.
    pub fn from_str(c: &str) -> (r: Components)
        ensures
            builtin_component(c@) matches Some(k) ==> r == k,
            builtin_component(c@) is None ==> is_custom_named(r, c@),
    {
        if str_eq(c, "AreaSquare") {
            Components::AreaSquare
        } else if str_eq(c, "BulletEnemy") {
            Components::BulletEnemy
        } else if str_eq(c, "BulletPlayer") {
            Components::BulletPlayer
        } else if str_eq(c, "Destroyed") {
            Components::Destroyed
        } else if str_eq(c, "Enemy") {
            Components::Enemy
        } else if str_eq(c, "Player") {
            Components::Player
        } else if str_eq(c, "Wall") {
            Components::Wall
        } else {
            Components::Custom(c.to_owned())
        }
    }
}

/// The custom role named `c`.
pub fn custom_comp(c: &str) -> (r: Components)
    ensures
        is_custom_named(r, c@),
{
    Components::Custom(c.to_owned())
}

/// A value of any type, carried along untouched.
#[verifier::external_body]
#[derive(Debug)]
pub struct AnyPayload(pub Box<dyn Any>);

/// A named attribute carrying a value of any type. Attributes are told apart
/// by name.
#[derive(Debug)]
pub struct CustomAttr {
    pub name: String,
    pub cus: AnyPayload,
}

impl CustomAttr {
    pub fn new(name: &str, cus: AnyPayload) -> (r: Self)
        ensures
            r.name@ == name@,
            r.cus == cus,
    {
        CustomAttr { name: name.to_owned(), cus }
    }
}


/// One attribute, ready to be set on an object.
#[derive(Debug)]
pub enum Attribute {
    Location(Vec2),
    Velocity(Vec2),
    Acc(Vec2),
    Mass(i32),
    Texture(GameTexture),
    Col(AABB),
    Render(bool),
    Custom(CustomAttr),
    Tag(String),
}

/// The attributes of an object: at most one of each kind, and any number of
/// custom ones with distinct names.
#[derive(Debug)]
pub struct Attributes {
    location: Option<Vec2>,
    velocity: Option<Vec2>,
    acc: Option<Vec2>,
    mass: Option<i32>,
    texture: Option<GameTexture>,
    col: Option<AABB>,
    render: Option<bool>,
    custom: Vec<CustomAttr>,
    tag: Option<String>,
}

/// The custom attribute named `n` in `cs`, if there is one.
pub open spec fn find_named(cs: Seq<CustomAttr>, n: Seq<char>) -> Option<CustomAttr> {
    if exists|i: int| 0 <= i < cs.len() && (#[trigger] cs[i]).name@ == n {
        Some(cs[choose|i: int| 0 <= i < cs.len() && (#[trigger] cs[i]).name@ == n])
    } else {
        None
    }
}

/// No two custom attributes share a name.
pub open spec fn names_distinct(cs: Seq<CustomAttr>) -> bool {
    forall|i: int, j: int| 0 <= i < cs.len() && 0 <= j < cs.len() && i != j ==> (#[trigger] cs[i]).name@ != (#[trigger] cs[j]).name@
}

impl Attributes {
    #[verifier::type_invariant]
    closed spec fn inv(self) -> bool {
        names_distinct(self.custom@)
    }

    pub closed spec fn location(&self) -> Option<Vec2> { self.location }
    pub closed spec fn velocity(&self) -> Option<Vec2> { self.velocity }
    pub closed spec fn acc(&self) -> Option<Vec2> { self.acc }
    pub closed spec fn mass(&self) -> Option<i32> { self.mass }
    pub closed spec fn texture(&self) -> Option<GameTexture> { self.texture }
    pub closed spec fn col(&self) -> Option<AABB> { self.col }
    pub closed spec fn render(&self) -> Option<bool> { self.render }
    pub closed spec fn tag(&self) -> Option<Seq<char>> {
        match self.tag {
            Some(t) => Some(t@),
            None => None,
        }
    }

    /// The custom attribute named `n`, if any.
    pub closed spec fn custom_named(&self, n: Seq<char>) -> Option<CustomAttr> {
        find_named(self.custom@, n)
    }

    /// The two hold the same attributes of every kind but, perhaps, the
    /// ones this predicate is told to skip.
    pub open spec fn same_except(
        &self,
        other: &Attributes,
        skip_location: bool,
        skip_velocity: bool,
        skip_acc: bool,
        skip_mass: bool,
        skip_texture: bool,
        skip_col: bool,
        skip_render: bool,
        skip_tag: bool,
    ) -> bool {
        &&& (skip_location || self.location() == other.location())
        &&& (skip_velocity || self.velocity() == other.velocity())
        &&& (skip_acc || self.acc() == other.acc())
        &&& (skip_mass || self.mass() == other.mass())
        &&& (skip_texture || self.texture() == other.texture())
        &&& (skip_col || self.col() == other.col())
        &&& (skip_render || self.render() == other.render())
        &&& (skip_tag || self.tag() == other.tag())
    }

    /// Every custom attribute is the same in both.
    pub open spec fn same_customs(&self, other: &Attributes) -> bool {
        forall|n: Seq<char>| #[trigger] self.custom_named(n) == other.custom_named(n)
    }

    /// No attribute at all.
    pub fn new() -> (r: Self)
        ensures
            r.location() is None,
            r.velocity() is None,
            r.acc() is None,
            r.mass() is None,
            r.texture() is None,
            r.col() is None,
            r.render() is None,
            r.tag() is None,
            forall|n: Seq<char>| #[trigger] r.custom_named(n) is None,
    {
        Attributes {
            location: None,
            velocity: None,
            acc: None,
            mass: None,
            texture: None,
            col: None,
            render: None,
            custom: Vec::new(),
            tag: None,
        }
    }

    /// Sets the location attribute, replacing any earlier one.
    #[allow(non_snake_case)]
    pub fn set_Location(&mut self, val: Vec2)
        ensures
            final(self).location() == Some(val),
            final(self).same_except(old(self), true, false, false, false, false, false, false, false),
            final(self).same_customs(old(self)),
    {
        proof { use_type_invariant(&*self); }
        self.location = Some(val);
    }

    /// The location attribute, if set.
    #[allow(non_snake_case)]
    pub fn get_Location(&self) -> (r: Option<&Vec2>)
        ensures
            (match r { Some(t) => Some(*t), None => None }) == self.location(),
    {
        self.location.as_ref()
    }

    /// Whether the location attribute is set.
    #[allow(non_snake_case)]
    pub fn check_Location(&self) -> (r: bool)
        ensures
            r == self.location() is Some,
    {
        self.location.is_some()
    }

    /// Sets the velocity attribute, replacing any earlier one.
    #[allow(non_snake_case)]
    pub fn set_Velocity(&mut self, val: Vec2)
        ensures
            final(self).velocity() == Some(val),
            final(self).same_except(old(self), false, true, false, false, false, false, false, false),
            final(self).same_customs(old(self)),
    {
        proof { use_type_invariant(&*self); }
        self.velocity = Some(val);
    }

    /// The velocity attribute, if set.
    #[allow(non_snake_case)]
    pub fn get_Velocity(&self) -> (r: Option<&Vec2>)
        ensures
            (match r { Some(t) => Some(*t), None => None }) == self.velocity(),
    {
        self.velocity.as_ref()
    }

    /// Whether the velocity attribute is set.
    #[allow(non_snake_case)]
    pub fn check_Velocity(&self) -> (r: bool)
        ensures
            r == self.velocity() is Some,
    {
        self.velocity.is_some()
    }

    /// Sets the acc attribute, replacing any earlier one.
    #[allow(non_snake_case)]
    pub fn set_Acc(&mut self, val: Vec2)
        ensures
            final(self).acc() == Some(val),
            final(self).same_except(old(self), false, false, true, false, false, false, false, false),
            final(self).same_customs(old(self)),
    {
        proof { use_type_invariant(&*self); }
        self.acc = Some(val);
    }

    /// The acc attribute, if set.
    #[allow(non_snake_case)]
    pub fn get_Acc(&self) -> (r: Option<&Vec2>)
        ensures
            (match r { Some(t) => Some(*t), None => None }) == self.acc(),
    {
        self.acc.as_ref()
    }

    /// Whether the acc attribute is set.
    #[allow(non_snake_case)]
    pub fn check_Acc(&self) -> (r: bool)
        ensures
            r == self.acc() is Some,
    {
        self.acc.is_some()
    }

    /// Sets the mass attribute, replacing any earlier one.
    #[allow(non_snake_case)]
    pub fn set_Mass(&mut self, val: i32)
        ensures
            final(self).mass() == Some(val),
            final(self).same_except(old(self), false, false, false, true, false, false, false, false),
            final(self).same_customs(old(self)),
    {
        proof { use_type_invariant(&*self); }
        self.mass = Some(val);
    }

    /// The mass attribute, if set.
    #[allow(non_snake_case)]
    pub fn get_Mass(&self) -> (r: Option<&i32>)
        ensures
            (match r { Some(t) => Some(*t), None => None }) == self.mass(),
    {
        self.mass.as_ref()
    }

    /// Whether the mass attribute is set.
    #[allow(non_snake_case)]
    pub fn check_Mass(&self) -> (r: bool)
        ensures
            r == self.mass() is Some,
    {
        self.mass.is_some()
    }

    /// Sets the texture attribute, replacing any earlier one.
    #[allow(non_snake_case)]
    pub fn set_Texture(&mut self, val: GameTexture)
        ensures
            final(self).texture() == Some(val),
            final(self).same_except(old(self), false, false, false, false, true, false, false, false),
            final(self).same_customs(old(self)),
    {
        proof { use_type_invariant(&*self); }
        self.texture = Some(val);
    }

    /// The texture attribute, if set.
    #[allow(non_snake_case)]
    pub fn get_Texture(&self) -> (r: Option<&GameTexture>)
        ensures
            (match r { Some(t) => Some(*t), None => None }) == self.texture(),
    {
        self.texture.as_ref()
    }

    /// Whether the texture attribute is set.
    #[allow(non_snake_case)]
    pub fn check_Texture(&self) -> (r: bool)
        ensures
            r == self.texture() is Some,
    {
        self.texture.is_some()
    }

    /// Sets the col attribute, replacing any earlier one.
    #[allow(non_snake_case)]
    pub fn set_Col(&mut self, val: AABB)
        ensures
            final(self).col() == Some(val),
            final(self).same_except(old(self), false, false, false, false, false, true, false, false),
            final(self).same_customs(old(self)),
    {
        proof { use_type_invariant(&*self); }
        self.col = Some(val);
    }

    /// The col attribute, if set.
    #[allow(non_snake_case)]
    pub fn get_Col(&self) -> (r: Option<&AABB>)
        ensures
            (match r { Some(t) => Some(*t), None => None }) == self.col(),
    {
        self.col.as_ref()
    }

    /// Whether the col attribute is set.
    #[allow(non_snake_case)]
    pub fn check_Col(&self) -> (r: bool)
        ensures
            r == self.col() is Some,
    {
        self.col.is_some()
    }

    /// Sets the render attribute, replacing any earlier one.
    #[allow(non_snake_case)]
    pub fn set_Render(&mut self, val: bool)
        ensures
            final(self).render() == Some(val),
            final(self).same_except(old(self), false, false, false, false, false, false, true, false),
            final(self).same_customs(old(self)),
    {
        proof { use_type_invariant(&*self); }
        self.render = Some(val);
    }

    /// The render attribute, if set.
    #[allow(non_snake_case)]
    pub fn get_Render(&self) -> (r: Option<&bool>)
        ensures
            (match r { Some(t) => Some(*t), None => None }) == self.render(),
    {
        self.render.as_ref()
    }

    /// Whether the render attribute is set.
    #[allow(non_snake_case)]
    pub fn check_Render(&self) -> (r: bool)
        ensures
            r == self.render() is Some,
    {
        self.render.is_some()
    }

    /// Sets the tag attribute, replacing any earlier one.
    #[allow(non_snake_case)]
    pub fn set_Tag(&mut self, val: String)
        ensures
            final(self).tag() == Some(val@),
            final(self).same_except(old(self), false, false, false, false, false, false, false, true),
            final(self).same_customs(old(self)),
    {
        proof { use_type_invariant(&*self); }
        self.tag = Some(val);
    }

    /// The tag attribute, if set.
    #[allow(non_snake_case)]
    pub fn get_Tag(&self) -> (r: Option<&String>)
        ensures
            (match r { Some(t) => Some(t@), None => None }) == self.tag(),
    {
        self.tag.as_ref()
    }

    /// Whether the tag attribute is set.
    #[allow(non_snake_case)]
    pub fn check_Tag(&self) -> (r: bool)
        ensures
            r == self.tag() is Some,
    {
        self.tag.is_some()
    }

    fn index_of_name(cs: &Vec<CustomAttr>, name: &String) -> (r: Option<usize>)
        ensures
            r matches Some(i) ==> i < cs@.len() && cs@[i as int].name@ == name@,
            r is None ==> forall|i: int| 0 <= i < cs@.len() ==> (#[trigger] cs@[i]).name@ != name@,
    {
        let mut i: usize = 0;
        while i < cs.len()
            invariant
                i <= cs@.len(),
                forall|j: int| 0 <= j < i ==> (#[trigger] cs@[j]).name@ != name@,
            decreases cs@.len() - i,
        {
            if cs[i].name == *name {
                return Some(i);
            }
            i = i + 1;
        }
        None
    }

    /// Sets a custom attribute, replacing the one of the same name if any.
    #[allow(non_snake_case)]
    pub fn set_Custom(&mut self, val: CustomAttr)
        ensures
            final(self).custom_named(val.name@) == Some(val),
            forall|n: Seq<char>| n != val.name@ ==> #[trigger] final(self).custom_named(n) == old(self).custom_named(n),
            final(self).same_except(old(self), false, false, false, false, false, false, false, false),
    {
        proof { use_type_invariant(&*self); }
        let ghost old_cs = self.custom@;
        let mut cs: Vec<CustomAttr> = Vec::new();
        std::mem::swap(&mut cs, &mut self.custom);
        let ghost name = val.name@;
        match Self::index_of_name(&cs, &val.name) {
            Some(i) => {
                cs.set(i, val);
                assert(cs@ == old_cs.update(i as int, val));
                assert(cs@[i as int] == val);
                assert forall|n: Seq<char>| n != name implies find_named(cs@, n) == find_named(old_cs, n) by {
                    if exists|j: int| 0 <= j < cs@.len() && (#[trigger] cs@[j]).name@ == n {
                        let j = choose|j: int| 0 <= j < cs@.len() && (#[trigger] cs@[j]).name@ == n;
                        assert(old_cs[j].name@ == n);
                    }
                    if exists|j: int| 0 <= j < old_cs.len() && (#[trigger] old_cs[j]).name@ == n {
                        let j = choose|j: int| 0 <= j < old_cs.len() && (#[trigger] old_cs[j]).name@ == n;
                        assert(cs@[j].name@ == n);
                    }
                }
                assert(find_named(cs@, name) == Some(val)) by {
                    assert(cs@[i as int].name@ == name);
                }
            },
            None => {
                cs.push(val);
                assert(cs@ == old_cs.push(val));
                assert forall|n: Seq<char>| n != name implies find_named(cs@, n) == find_named(old_cs, n) by {
                    if exists|j: int| 0 <= j < cs@.len() && (#[trigger] cs@[j]).name@ == n {
                        let j = choose|j: int| 0 <= j < cs@.len() && (#[trigger] cs@[j]).name@ == n;
                        assert(old_cs[j].name@ == n);
                    }
                    if exists|j: int| 0 <= j < old_cs.len() && (#[trigger] old_cs[j]).name@ == n {
                        let j = choose|j: int| 0 <= j < old_cs.len() && (#[trigger] old_cs[j]).name@ == n;
                        assert(cs@[j].name@ == n);
                    }
                }
                assert(find_named(cs@, name) == Some(val)) by {
                    assert(cs@[old_cs.len() as int].name@ == name);
                }
            },
        }
        std::mem::swap(&mut cs, &mut self.custom);
    }

    /// The custom attribute with the empty name, if any.
    #[allow(non_snake_case)]
    pub fn get_Custom(&self) -> (r: Option<&CustomAttr>)
        ensures
            (match r { Some(c) => Some(*c), None => None }) == self.custom_named(Seq::empty()),
    {
        proof { use_type_invariant(self); }
        let empty = String::new();
        match Self::index_of_name(&self.custom, &empty) {
            Some(i) => Some(&self.custom[i]),
            None => None,
        }
    }

    /// Whether there is a custom attribute with the empty name.
    #[allow(non_snake_case)]
    pub fn check_Custom(&self) -> (r: bool)
        ensures
            r == self.custom_named(Seq::empty()) is Some,
    {
        self.get_Custom().is_some()
    }
}

} // verus!
