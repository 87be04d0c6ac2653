//! Whole-pipeline scenarios: concrete inputs with fully pinned outputs,
//! the fold and coalescing guarantees, the fast path, and the table shape.

use semester::{
    classes_impl, erase_classes, erase_static_classes, static_classes_impl, ClassRule, Classes,
    CompiledClasses, CompiledStatic, CondExpr, StaticClassSet, StaticClasses,
};

fn rule(token: &str, condition: Option<CondExpr>) -> ClassRule {
    ClassRule { token: token.to_string(), condition }
}

fn lit(value: bool) -> Option<CondExpr> {
    Some(CondExpr::Lit(value))
}

fn opaque() -> Option<CondExpr> {
    Some(CondExpr::Opaque)
}

#[test]
fn concrete_conditions_fold_to_a_fixed_set() {
    let rules = vec![
        rule("always1", None),
        rule("always2", None),
        rule("class1", lit(true)),
        rule("class2", lit(false)),
        rule("class3", lit(true)),
        rule("all3", lit(false)),
    ];
    let classes = match static_classes_impl(rules).unwrap() {
        CompiledStatic::Fixed(s) => s,
        CompiledStatic::Table(_) => panic!("every condition was concrete"),
    };
    assert_eq!(classes.as_str(), "always1 always2 class1 class3");
    assert_eq!(classes.len(), 4);
    assert_eq!(
        classes.iter(),
        vec![
            "always1".to_string(),
            "always2".to_string(),
            "class1".to_string(),
            "class3".to_string()
        ]
    );
}

#[test]
fn all_false_conditions_render_nothing() {
    let rules = vec![rule("a", lit(false)), rule("b", lit(false))];
    let classes = match classes_impl(rules).unwrap() {
        CompiledClasses::Fixed(s) => s,
        CompiledClasses::Dynamic(_) => panic!("every condition was concrete"),
    };
    assert_eq!(classes.render(), "");
    assert_eq!(classes.try_as_str(), Some(""));
    assert_eq!(classes.len(), 0);

    let rules = vec![rule("a", opaque()), rule("b", opaque())];
    let template = match classes_impl(rules).unwrap() {
        CompiledClasses::Dynamic(t) => t,
        CompiledClasses::Fixed(_) => panic!("expected a dynamic template"),
    };
    let set = template.instantiate(vec![false, false]);
    assert_eq!(set.render(), "");
    assert_eq!(set.try_as_str(), Some(""));
    assert_eq!(set.len(), 0);
    assert_eq!(set.iter(), Vec::<String>::new());
}

#[test]
fn all_unconditional_short_circuits_both_generators() {
    let rules = vec![rule("a", None), rule("b", None), rule("c", None)];
    let dynamic = match classes_impl(rules).unwrap() {
        CompiledClasses::Fixed(s) => s,
        CompiledClasses::Dynamic(_) => panic!("expected the fixed short circuit"),
    };
    let rules = vec![rule("a", None), rule("b", None), rule("c", None)];
    let fixed = match static_classes_impl(rules).unwrap() {
        CompiledStatic::Fixed(s) => s,
        CompiledStatic::Table(_) => panic!("expected the fixed short circuit"),
    };
    assert_eq!(dynamic.render(), "a b c");
    assert_eq!(fixed.render(), "a b c");
    assert_eq!(dynamic.try_as_str(), Some("a b c"));
    assert_eq!(fixed.try_as_str(), Some("a b c"));
    assert_eq!(dynamic, fixed);
}

#[test]
fn empty_input_is_an_empty_fixed_set() {
    let classes = match classes_impl(Vec::new()).unwrap() {
        CompiledClasses::Fixed(s) => s,
        CompiledClasses::Dynamic(_) => panic!("expected the fixed short circuit"),
    };
    assert_eq!(classes.as_str(), "");
    assert_eq!(classes.class_set(), &Vec::<String>::new());
}

#[test]
fn fold_matches_manual_simplification() {
    let rules = vec![rule("a", None), rule("b", lit(true)), rule("c", lit(false))];
    let folded = match classes_impl(rules).unwrap() {
        CompiledClasses::Fixed(s) => s,
        CompiledClasses::Dynamic(_) => panic!("every condition was concrete"),
    };
    let manual_rules = vec![rule("a", None), rule("b", None)];
    let manual = match classes_impl(manual_rules).unwrap() {
        CompiledClasses::Fixed(s) => s,
        CompiledClasses::Dynamic(_) => panic!("unconditional input"),
    };
    assert_eq!(folded.render(), manual.render());
    assert_eq!(folded.render(), "a b");
}

#[test]
fn outputs_keep_declaration_order_under_every_assignment() {
    let declared = ["a", "m1", "b", "c", "m2", "d"];
    let live_flags = [false, true];
    for &f1 in &live_flags {
        for &f2 in &live_flags {
            let rules = vec![
                rule("a", None),
                rule("m1", opaque()),
                rule("b", None),
                rule("c", None),
                rule("m2", opaque()),
                rule("d", None),
            ];
            let template = match classes_impl(rules).unwrap() {
                CompiledClasses::Dynamic(t) => t,
                CompiledClasses::Fixed(_) => panic!("expected a dynamic template"),
            };
            let set = template.instantiate(vec![f1, f2]);
            let live = set.iter();
            // the live tokens appear in exactly the declared relative order
            let mut positions: Vec<usize> = Vec::new();
            for token in &live {
                positions.push(declared.iter().position(|d| *d == token.as_str()).unwrap());
            }
            let mut sorted = positions.clone();
            sorted.sort();
            assert_eq!(positions, sorted);
            assert_eq!(set.render(), live.join(" "));
        }
    }
}

#[test]
fn static_and_dynamic_agree_on_every_assignment() {
    let live_flags = [false, true];
    for &f1 in &live_flags {
        for &f2 in &live_flags {
            let rules = vec![
                rule("head", None),
                rule("m1", opaque()),
                rule("mid", None),
                rule("m2", opaque()),
            ];
            let template = match classes_impl(rules).unwrap() {
                CompiledClasses::Dynamic(t) => t,
                CompiledClasses::Fixed(_) => panic!("expected a dynamic template"),
            };
            let rules = vec![
                rule("head", None),
                rule("m1", opaque()),
                rule("mid", None),
                rule("m2", opaque()),
            ];
            let table = match static_classes_impl(rules).unwrap() {
                CompiledStatic::Table(t) => t,
                CompiledStatic::Fixed(_) => panic!("expected a table"),
            };
            let dynamic = template.instantiate(vec![f1, f2]);
            let chosen = table.select(&vec![f1, f2]);
            assert_eq!(dynamic.render(), chosen.as_str());
            assert_eq!(&dynamic.iter(), chosen.class_set());
        }
    }
}

#[test]
fn table_holds_one_row_per_assignment() {
    let rules = vec![
        rule("fixed", None),
        rule("c1", opaque()),
        rule("c2", opaque()),
        rule("c3", opaque()),
    ];
    let table = match static_classes_impl(rules).unwrap() {
        CompiledStatic::Table(t) => t,
        CompiledStatic::Fixed(_) => panic!("expected a table"),
    };
    assert_eq!(table.condition_count(), 3);
    assert_eq!(table.row_count(), 8);
    let mut seen: Vec<String> = Vec::new();
    for &b1 in &[false, true] {
        for &b2 in &[false, true] {
            for &b3 in &[false, true] {
                let row = table.select(&vec![b1, b2, b3]);
                let mut expected = vec!["fixed".to_string()];
                if b1 {
                    expected.push("c1".to_string());
                }
                if b2 {
                    expected.push("c2".to_string());
                }
                if b3 {
                    expected.push("c3".to_string());
                }
                assert_eq!(row.class_set(), &expected);
                assert_eq!(row.as_str(), expected.join(" "));
                seen.push(row.as_str().to_string());
            }
        }
    }
    seen.sort();
    seen.dedup();
    assert_eq!(seen.len(), 8);
}

#[test]
fn try_as_str_always_matches_render() {
    let flags = [false, true];
    for &f1 in &flags {
        for &f2 in &flags {
            let rules = vec![
                rule("a", None),
                rule("b", None),
                rule("m1", opaque()),
                rule("m2", opaque()),
            ];
            let template = match classes_impl(rules).unwrap() {
                CompiledClasses::Dynamic(t) => t,
                CompiledClasses::Fixed(_) => panic!("expected a dynamic template"),
            };
            let set = template.instantiate(vec![f1, f2]);
            if let Some(s) = set.try_as_str() {
                assert_eq!(s, set.render());
            }
            // the fast path succeeds exactly when at most one fragment is live
            assert_eq!(set.try_as_str().is_some(), !f1 && !f2);
        }
    }
}

#[test]
fn erasure_returns_the_same_set() {
    let rules = vec![rule("a", None), rule("b", None)];
    let classes = match classes_impl(rules).unwrap() {
        CompiledClasses::Fixed(s) => s,
        CompiledClasses::Dynamic(_) => panic!("unconditional input"),
    };
    let erased = erase_static_classes(classes);
    assert_eq!(erased.as_str(), "a b");
    let erased = erase_classes(erased);
    assert_eq!(erased.render(), "a b");
}

#[test]
fn static_class_set_pairs_tokens_with_their_join() {
    let set = StaticClassSet::new(
        vec!["one".to_string(), "two".to_string()],
        "one two".to_string(),
    );
    assert_eq!(set.as_str(), "one two");
    assert_eq!(set.class_set(), &vec!["one".to_string(), "two".to_string()]);
    assert_eq!(set.iter(), vec!["one".to_string(), "two".to_string()]);
    assert_eq!(set.len(), 2);
}

#[test]
fn template_reports_its_record_size() {
    let rules = vec![rule("a", None), rule("m1", opaque()), rule("m2", opaque())];
    let template = match classes_impl(rules).unwrap() {
        CompiledClasses::Dynamic(t) => t,
        CompiledClasses::Fixed(_) => panic!("expected a dynamic template"),
    };
    assert_eq!(template.condition_count(), 2);
}
