use std::any::Any;
use std::fmt::Debug;
use termrender::components::{custom_comp, AnyPayload, Attributes, Components, CustomAttr};

#[test]
fn att_test() {
    let mut m = Attributes::new();
    m.set_Mass(100);
    m.set_Mass(30);
    let _mass = m.get_Mass().unwrap();
    println!("{:?}", m);
}

#[test]
fn custom_test() {
    let mut a = Attributes::new();
    a.set_Custom(CustomAttr::new("lol", AnyPayload(Box::new(1))));
    a.set_Custom(CustomAttr::new("lul", AnyPayload(Box::new(()))));
    println!("{:?}", a)
}

#[test]
fn any_debug() {
    let a: Box<dyn Any> = Box::new(2);
    if let Ok(b) = a.downcast::<Box<dyn Debug>>() {
        println!("{:?}", b)
    } else {
        println!("olmadı abe")
    }
}

#[test]
fn tag_test() {
    let mut a = Attributes::new();
    a.set_Tag("asfasfsa".to_string());
    a.set_Tag("31".to_string());
    a.set_Tag("67".to_string());
    println!("{:?}", a)
}

#[test]
fn last_mass_wins() {
    let mut m = Attributes::new();
    assert!(!m.check_Mass());
    m.set_Mass(100);
    m.set_Mass(30);
    assert_eq!(m.get_Mass(), Some(&30));
    assert!(m.check_Mass());
    assert!(!m.check_Location());
}

#[test]
fn last_tag_wins() {
    let mut a = Attributes::new();
    a.set_Tag("asfasfsa".to_string());
    a.set_Tag("67".to_string());
    assert_eq!(a.get_Tag().map(|s| s.as_str()), Some("67"));
}

#[test]
fn custom_attribute_replaced_by_name() {
    let mut a = Attributes::new();
    assert!(a.get_Custom().is_none());
    a.set_Custom(CustomAttr::new("lol", AnyPayload(Box::new(1))));
    assert!(!a.check_Custom());
    a.set_Custom(CustomAttr::new("", AnyPayload(Box::new(5i32))));
    a.set_Custom(CustomAttr::new("", AnyPayload(Box::new(7i32))));
    let c = a.get_Custom().unwrap();
    assert_eq!(c.name, "");
    assert_eq!(c.cus.0.downcast_ref::<i32>(), Some(&7));
}

#[test]
fn component_names() {
    assert!(matches!(Components::from_str("Player"), Components::Player));
    assert!(matches!(Components::from_str("Wall"), Components::Wall));
    assert!(matches!(Components::from_str("AreaSquare"), Components::AreaSquare));
    assert!(matches!(Components::from_str("player"), Components::Custom(ref s) if s == "player"));
    assert!(matches!(Components::custom("Food"), Components::Custom(ref s) if s == "Food"));
    assert!(matches!(custom_comp("Food"), Components::Custom(ref s) if s == "Food"));
    assert!(Components::from_str("Enemy") == Components::Enemy);
    assert!(Components::custom("a") != Components::custom("b"));
    assert!(Components::custom("a") == Components::from_str("a"));
}
