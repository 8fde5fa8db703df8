use script_modules::engine::Engine;
use script_modules::module::{FnAccess, FnNamespace, FnOrigin, FuncInfo, Module, ModuleResolver};
use script_modules::resolvers::StaticModuleResolver;
use script_modules::result::EvalAltResult;
use script_modules::token::Position;

fn native(name: &str) -> FuncInfo {
    FuncInfo {
        namespace: FnNamespace::Internal,
        access: FnAccess::Public,
        name: name.to_string(),
        params: 0,
        param_names: None,
        origin: FnOrigin::Native,
    }
}

fn module_with(names: &[&str]) -> Module {
    let mut module = Module::new();
    for name in names {
        module.set_fn(native(name));
    }
    module
}

#[test]
fn new_resolver_is_empty() {
    let resolver = StaticModuleResolver::new();
    assert!(resolver.is_empty());
    assert_eq!(resolver.len(), 0);
    assert!(!resolver.contains_path("math"));
    assert!(resolver.iter().is_empty());
    assert!(resolver.paths().is_empty());
    assert!(resolver.values().is_empty());
}

#[test]
fn default_resolver_is_empty() {
    let resolver = StaticModuleResolver::default();
    assert!(resolver.is_empty());
    assert_eq!(resolver.len(), 0);
}

#[test]
fn insert_then_resolve_yields_the_module() {
    let engine = Engine::new();
    let mut resolver = StaticModuleResolver::new();
    resolver.insert("math", module_with(&["sin", "cos"]));
    let resolved = resolver.resolve(&engine, "math", Position::new(3, 7));
    assert_eq!(resolved, Ok(module_with(&["sin", "cos"])));
}

#[test]
fn resolve_of_absent_path_fails_with_path_and_position() {
    let engine = Engine::new();
    let mut resolver = StaticModuleResolver::new();
    resolver.insert("math", module_with(&["sin"]));
    let pos = Position::new(12, 4);
    let resolved = resolver.resolve(&engine, "geo", pos);
    assert_eq!(
        resolved,
        Err(Box::new(EvalAltResult::ErrorModuleNotFound("geo".to_string(), pos)))
    );
    let error = resolved.unwrap_err();
    assert_eq!(error.position(), pos);
    assert_eq!(error.position().line(), Some(12));
    assert_eq!(error.position().position(), Some(4));
}

#[test]
fn resolve_on_empty_resolver_fails() {
    let engine = Engine::new();
    let resolver = StaticModuleResolver::new();
    let resolved = resolver.resolve(&engine, "", Position::none());
    assert_eq!(
        resolved,
        Err(Box::new(EvalAltResult::ErrorModuleNotFound(String::new(), Position::none())))
    );
}

#[test]
fn paths_match_exactly() {
    let engine = Engine::new();
    let mut resolver = StaticModuleResolver::new();
    resolver.insert("math", module_with(&["sin"]));
    assert!(resolver.contains_path("math"));
    assert!(!resolver.contains_path("Math"));
    assert!(!resolver.contains_path("math "));
    assert!(!resolver.contains_path("mat"));
    assert!(!resolver.contains_path("maths"));
    assert!(resolver.resolve(&engine, "mat", Position::new(1, 0)).is_err());
    assert!(resolver.resolve(&engine, "maths", Position::new(1, 0)).is_err());
}

#[test]
fn resolved_module_is_a_copy() {
    let engine = Engine::new();
    let mut resolver = StaticModuleResolver::new();
    resolver.insert("math", module_with(&["sin"]));
    let mut resolved = resolver.resolve(&engine, "math", Position::new(1, 1)).unwrap();
    resolved.set_fn(native("tan"));
    let again = resolver.resolve(&engine, "math", Position::new(1, 1)).unwrap();
    assert_eq!(again, module_with(&["sin"]));
    assert_eq!(resolved, module_with(&["sin", "tan"]));
}

#[test]
fn len_follows_insert_remove_clear() {
    let mut resolver = StaticModuleResolver::new();
    assert_eq!(resolver.len(), 0);
    resolver.insert("a", module_with(&["f"]));
    assert_eq!(resolver.len(), 1);
    assert!(!resolver.is_empty());
    resolver.insert("b", module_with(&["g"]));
    assert_eq!(resolver.len(), 2);
    resolver.insert("a", module_with(&["h"]));
    assert_eq!(resolver.len(), 2);
    assert_eq!(resolver.remove("zzz"), None);
    assert_eq!(resolver.len(), 2);
    assert_eq!(resolver.remove("a"), Some(module_with(&["h"])));
    assert_eq!(resolver.len(), 1);
    assert!(!resolver.contains_path("a"));
    assert!(resolver.contains_path("b"));
    assert_eq!(resolver.remove("a"), None);
    resolver.clear();
    assert_eq!(resolver.len(), 0);
    assert!(resolver.is_empty());
    assert!(!resolver.contains_path("b"));
}

#[test]
fn insert_replaces_the_module_under_a_path() {
    let engine = Engine::new();
    let mut resolver = StaticModuleResolver::new();
    resolver.insert("a", module_with(&["old"]));
    resolver.insert("b", module_with(&["other"]));
    resolver.insert("a", module_with(&["new"]));
    assert_eq!(
        resolver.resolve(&engine, "a", Position::new(1, 1)),
        Ok(module_with(&["new"]))
    );
    assert_eq!(
        resolver.resolve(&engine, "b", Position::new(1, 1)),
        Ok(module_with(&["other"]))
    );
}

#[test]
fn merge_takes_the_union_and_incoming_wins() {
    let engine = Engine::new();
    let pos = Position::new(2, 2);
    let mut a = StaticModuleResolver::new();
    a.insert("only_a", module_with(&["a1"]));
    a.insert("both", module_with(&["a2"]));
    let mut b = StaticModuleResolver::new();
    b.insert("both", module_with(&["b2"]));
    b.insert("only_b", module_with(&["b3"]));
    a.merge(b);
    assert_eq!(a.len(), 3);
    let mut paths = a.paths();
    paths.sort();
    assert_eq!(paths, vec!["both", "only_a", "only_b"]);
    assert_eq!(a.resolve(&engine, "only_a", pos), Ok(module_with(&["a1"])));
    assert_eq!(a.resolve(&engine, "both", pos), Ok(module_with(&["b2"])));
    assert_eq!(a.resolve(&engine, "only_b", pos), Ok(module_with(&["b3"])));
}

#[test]
fn merge_of_empty_changes_nothing() {
    let mut a = StaticModuleResolver::new();
    a.insert("x", module_with(&["f"]));
    a.merge(StaticModuleResolver::new());
    assert_eq!(a.len(), 1);
    assert_eq!(a.iter(), vec![("x", &module_with(&["f"]))]);
    let mut empty = StaticModuleResolver::new();
    empty.merge(a);
    assert_eq!(empty.len(), 1);
    assert!(empty.contains_path("x"));
}

#[test]
fn add_assign_merges() {
    let engine = Engine::new();
    let mut a = StaticModuleResolver::new();
    a.insert("m", module_with(&["old"]));
    let mut b = StaticModuleResolver::new();
    b.insert("m", module_with(&["new"]));
    b.insert("n", module_with(&["more"]));
    a += b;
    assert_eq!(a.len(), 2);
    assert_eq!(
        a.resolve(&engine, "m", Position::new(1, 1)),
        Ok(module_with(&["new"]))
    );
}

#[test]
fn seeded_registry_scenario() {
    let engine = Engine::new();
    let pos = Position::new(5, 9);
    let trig = module_with(&["sin", "cos"]);
    let lengths = module_with(&["len"]);
    let roots = module_with(&["sqrt"]);
    let mut registry = StaticModuleResolver::new();
    registry.insert("math", module_with(&["sin", "cos"]));
    registry.insert("str", module_with(&["len"]));
    assert_eq!(registry.resolve(&engine, "math", pos), Ok(trig));
    assert_eq!(
        registry.resolve(&engine, "geo", pos),
        Err(Box::new(EvalAltResult::ErrorModuleNotFound("geo".to_string(), pos)))
    );
    let mut incoming = StaticModuleResolver::new();
    incoming.insert("math", module_with(&["sqrt"]));
    registry.merge(incoming);
    assert_eq!(registry.resolve(&engine, "math", pos), Ok(roots));
    assert_eq!(registry.resolve(&engine, "str", pos), Ok(lengths));
    assert_eq!(registry.len(), 2);
}

#[test]
fn enumerations_agree() {
    let mut resolver = StaticModuleResolver::new();
    resolver.insert("one", module_with(&["f1"]));
    resolver.insert("two", module_with(&["f2"]));
    resolver.insert("three", module_with(&["f3"]));
    let pairs = resolver.iter();
    let paths = resolver.paths();
    let values = resolver.values();
    assert_eq!(pairs.len(), 3);
    assert_eq!(paths.len(), 3);
    assert_eq!(values.len(), 3);
    for i in 0..3 {
        assert_eq!(pairs[i].0, paths[i]);
        assert_eq!(pairs[i].1, values[i]);
    }
    let mut sorted = paths.clone();
    sorted.sort();
    assert_eq!(sorted, vec!["one", "three", "two"]);
    let two = paths.iter().position(|p| *p == "two").unwrap();
    assert_eq!(values[two], &module_with(&["f2"]));
}

#[test]
fn into_iter_hands_out_every_entry_once() {
    let mut resolver = StaticModuleResolver::new();
    resolver.insert("one", module_with(&["f1"]));
    resolver.insert("two", module_with(&["f2"]));
    resolver.insert("one", module_with(&["f3"]));
    let mut entries = resolver.into_iter();
    entries.sort_by(|a, b| a.0.cmp(&b.0));
    assert_eq!(
        entries,
        vec![
            ("one".to_string(), module_with(&["f3"])),
            ("two".to_string(), module_with(&["f2"])),
        ]
    );
}

#[test]
fn values_mut_changes_a_module_in_place() {
    let engine = Engine::new();
    let mut resolver = StaticModuleResolver::new();
    resolver.insert("one", module_with(&["f1"]));
    resolver.insert("two", module_with(&["f2"]));
    let at = resolver.paths().iter().position(|p| *p == "two").unwrap();
    resolver.values_mut(at).unwrap().set_fn(native("extra"));
    assert!(resolver.values_mut(2).is_none());
    assert_eq!(resolver.len(), 2);
    assert_eq!(
        resolver.resolve(&engine, "two", Position::new(1, 1)),
        Ok(module_with(&["f2", "extra"]))
    );
    assert_eq!(
        resolver.resolve(&engine, "one", Position::new(1, 1)),
        Ok(module_with(&["f1"]))
    );
}

#[test]
fn iter_mut_gives_the_path_and_changes_the_module() {
    let engine = Engine::new();
    let mut resolver = StaticModuleResolver::new();
    resolver.insert("one", module_with(&["f1"]));
    resolver.insert("two", module_with(&["f2"]));
    let mut index = 0;
    while let Some((path, module)) = resolver.iter_mut(index) {
        let added = format!("in_{}", path);
        module.set_fn(native(&added));
        index += 1;
    }
    assert_eq!(index, 2);
    assert_eq!(
        resolver.resolve(&engine, "one", Position::new(1, 1)),
        Ok(module_with(&["f1", "in_one"]))
    );
    assert_eq!(
        resolver.resolve(&engine, "two", Position::new(1, 1)),
        Ok(module_with(&["f2", "in_two"]))
    );
}

#[test]
fn clone_copies_every_entry() {
    let mut resolver = StaticModuleResolver::new();
    resolver.insert("one", module_with(&["f1"]));
    resolver.insert("two", module_with(&["f2"]));
    let mut copy = resolver.clone();
    assert_eq!(copy.iter(), resolver.iter());
    copy.remove("one");
    assert_eq!(resolver.len(), 2);
    assert_eq!(copy.len(), 1);
}

#[test]
fn non_ascii_paths_are_told_apart() {
    let mut resolver = StaticModuleResolver::new();
    resolver.insert("caf\u{e9}", module_with(&["a"]));
    resolver.insert("cafe\u{301}", module_with(&["b"]));
    assert_eq!(resolver.len(), 2);
    assert!(resolver.contains_path("caf\u{e9}"));
    assert!(!resolver.contains_path("cafe"));
    assert_eq!(resolver.remove("cafe\u{301}"), Some(module_with(&["b"])));
    assert_eq!(resolver.len(), 1);
}

#[test]
fn module_keeps_functions_and_sub_modules_in_order() {
    let mut inner = Module::new();
    inner.set_fn(native("g"));
    let mut module = Module::new();
    module.set_fn(native("f1"));
    module.set_fn(native("f2"));
    module.set_sub_module("util", inner.clone());
    module.set_sub_module("more", Module::new());
    let names: Vec<&str> = module.iter_fn().iter().map(|f| f.name.as_str()).collect();
    assert_eq!(names, vec!["f1", "f2"]);
    let subs = module.iter_sub_modules();
    assert_eq!(subs.len(), 2);
    assert_eq!(subs[0], ("util".to_string(), inner));
    assert_eq!(subs[1], ("more".to_string(), Module::new()));
    assert_eq!(module.clone(), module);
}

#[test]
fn origin_tells_script_from_native() {
    assert!(FnOrigin::Script { comments: vec![] }.is_script());
    assert!(!FnOrigin::Native.is_script());
}

#[test]
fn position_none_has_no_line() {
    assert_eq!(Position::none().line(), None);
    assert_eq!(Position::none().position(), None);
    assert_eq!(Position::new(1, 0).line(), Some(1));
    assert_eq!(Position::new(1, 0).position(), Some(0));
}
