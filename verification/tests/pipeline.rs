//! The end-to-end behavior of both pipelines.

use semester::{
    classes_impl, static_classes_impl, ClassRule, Classes, CompiledClasses, CompiledStatic,
    CondExpr, StaticClasses,
};

fn rule(token: &str, condition: Option<CondExpr>) -> ClassRule {
    ClassRule { token: token.to_string(), condition }
}

fn opaque() -> Option<CondExpr> {
    Some(CondExpr::Opaque)
}

fn lit(value: bool) -> Option<CondExpr> {
    Some(CondExpr::Lit(value))
}

#[test]
fn test_static_classes() {
    let mut rendered: Vec<String> = Vec::new();
    for &c1 in &[true, false] {
        for &c2 in &[true, false] {
            let rules = vec![
                rule("class1", None),
                rule("maybe1", opaque()),
                rule("maybe2", opaque()),
                rule("both", opaque()),
                rule("never", lit(false)),
                rule("always", lit(true)),
            ];
            let table = match static_classes_impl(rules).unwrap() {
                CompiledStatic::Table(t) => t,
                CompiledStatic::Fixed(_) => panic!("expected a table"),
            };
            rendered.push(table.select(&vec![c1, c2, c1 && c2]).as_str().to_string());
        }
    }
    assert_eq!(
        rendered,
        vec![
            "class1 maybe1 maybe2 both always".to_string(),
            "class1 maybe1 always".to_string(),
            "class1 maybe2 always".to_string(),
            "class1 always".to_string(),
        ]
    );
}

#[test]
fn test_dynamic_classes() {
    let mut rendered: Vec<(String, usize)> = Vec::new();
    for &c1 in &[true, false] {
        for &c2 in &[true, false] {
            let rules = vec![
                rule("class1", None),
                rule("class2", None),
                rule("maybe1", opaque()),
                rule("maybe2", opaque()),
                rule("both", opaque()),
                rule("never", lit(false)),
                rule("always", lit(true)),
            ];
            let template = match classes_impl(rules).unwrap() {
                CompiledClasses::Dynamic(t) => t,
                CompiledClasses::Fixed(_) => panic!("expected a dynamic template"),
            };
            let set = template.instantiate(vec![c1, c2, c1 && c2]);
            rendered.push((set.render(), set.len()));
        }
    }
    assert_eq!(
        rendered,
        vec![
            ("class1 class2 maybe1 maybe2 both always".to_string(), 6),
            ("class1 class2 maybe1 always".to_string(), 4),
            ("class1 class2 maybe2 always".to_string(), 4),
            ("class1 class2 always".to_string(), 3),
        ]
    );
}

#[test]
fn test_all_conditional() {
    let b1 = true;
    let b2 = true;

    let rules = vec![rule("class1", opaque()), rule("class2", opaque()), rule("both", opaque())];
    let template = match classes_impl(rules).unwrap() {
        CompiledClasses::Dynamic(t) => t,
        CompiledClasses::Fixed(_) => panic!("expected a dynamic template"),
    };
    let classes = template.instantiate(vec![b1, b2, b1 && b2]);
    assert_eq!(classes.render(), "class1 class2 both");
    assert_eq!(classes.len(), 3)
}

fn three_conditional_classes() -> semester::DynamicTemplate {
    let rules = vec![
        ClassRule { token: "class1".to_string(), condition: Some(CondExpr::Opaque) },
        ClassRule { token: "class2".to_string(), condition: Some(CondExpr::Opaque) },
        ClassRule { token: "class3".to_string(), condition: Some(CondExpr::Opaque) },
    ];
    match classes_impl(rules).unwrap() {
        CompiledClasses::Dynamic(t) => t,
        CompiledClasses::Fixed(_) => panic!("expected a dynamic template"),
    }
}

#[test]
fn test_dynamic_str() {
    let template = three_conditional_classes();
    let classes = template.instantiate(vec![true, false, false]);
    assert_eq!(classes.try_as_str(), Some("class1"));
    assert_eq!(classes.render(), "class1");

    let classes = template.instantiate(vec![false, true, false]);
    assert_eq!(classes.try_as_str(), Some("class2"));
    assert_eq!(classes.render(), "class2");

    let classes = template.instantiate(vec![false, false, true]);
    assert_eq!(classes.try_as_str(), Some("class3"));
    assert_eq!(classes.render(), "class3");

    let classes = template.instantiate(vec![true, true, true]);
    assert_eq!(classes.try_as_str(), None);
    assert_eq!(classes.render(), "class1 class2 class3");
}

#[test]
fn test_dynamic_commas() {
    let b1 = true;
    let b2 = true;

    let template1 = match classes_impl(vec![rule("class1", opaque())]).unwrap() {
        CompiledClasses::Dynamic(t) => t,
        CompiledClasses::Fixed(_) => panic!("expected a dynamic template"),
    };
    let template2 = match classes_impl(vec![rule("class1", opaque())]).unwrap() {
        CompiledClasses::Dynamic(t) => t,
        CompiledClasses::Fixed(_) => panic!("expected a dynamic template"),
    };
    let class1 = template1.instantiate(vec![b1]);
    let class2 = template2.instantiate(vec![b2]);

    assert_eq!(class1.render(), class2.render())
}

#[test]
fn test_static_commas() {
    let b1 = true;
    let b2 = true;

    let rules1 = vec![rule("class1", opaque()), rule("class2", opaque())];
    let rules2 = vec![rule("class1", opaque()), rule("class2", opaque())];
    let table1 = match static_classes_impl(rules1).unwrap() {
        CompiledStatic::Table(t) => t,
        CompiledStatic::Fixed(_) => panic!("expected a table"),
    };
    let table2 = match static_classes_impl(rules2).unwrap() {
        CompiledStatic::Table(t) => t,
        CompiledStatic::Fixed(_) => panic!("expected a table"),
    };
    let class1 = table1.select(&vec![b1, b2]);
    let class2 = table2.select(&vec![b2, b2]);

    assert_eq!(class1.render(), class2.render());
}

#[test]
fn test_dynamic_no_alloc() {
    let rules = vec![rule("class1", None), rule("class2", None), rule("maybe", opaque())];
    let template = match classes_impl(rules).unwrap() {
        CompiledClasses::Dynamic(t) => t,
        CompiledClasses::Fixed(_) => panic!("expected a dynamic template"),
    };
    let classes = template.instantiate(vec![10 == 12]);

    assert_eq!(classes.try_as_str(), Some("class1 class2"))
}

#[test]
fn test_fixed_static() {
    let rules = vec![rule("class1", None), rule("class2", None), rule("class3", None)];
    let classes = match static_classes_impl(rules).unwrap() {
        CompiledStatic::Fixed(s) => s,
        CompiledStatic::Table(_) => panic!("expected the fixed short circuit"),
    };

    assert_eq!(classes.as_str(), "class1 class2 class3");
    assert_eq!(
        classes.class_set(),
        &vec!["class1".to_string(), "class2".to_string(), "class3".to_string()]
    );
    assert_eq!(classes.render(), "class1 class2 class3");
}

#[test]
fn test_fixed_dynamic() {
    let rules = vec![rule("class1", None), rule("class2", None), rule("class3", None)];
    let classes = match classes_impl(rules).unwrap() {
        CompiledClasses::Fixed(s) => s,
        CompiledClasses::Dynamic(_) => panic!("expected the fixed short circuit"),
    };

    assert_eq!(classes.as_str(), "class1 class2 class3");
    assert_eq!(
        classes.class_set(),
        &vec!["class1".to_string(), "class2".to_string(), "class3".to_string()]
    );
    assert_eq!(classes.render(), "class1 class2 class3")
}
