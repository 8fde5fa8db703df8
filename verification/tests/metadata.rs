use script_modules::ast::ScriptFnMetadata;
use script_modules::metadata::function::{FnMetadata, FnParam};
use script_modules::metadata::tags::{FnAccess, FnNamespace, FnType};
use script_modules::module::{FnOrigin, FuncInfo};

fn param(name: &str, typ: Option<&str>) -> FnParam {
    FnParam { name: name.to_string(), typ: typ.map(|t| t.to_string()) }
}

fn strings(items: &[&str]) -> Vec<String> {
    items.iter().map(|s| s.to_string()).collect()
}

fn info(params: usize, param_names: Option<&[&str]>, origin: FnOrigin) -> FuncInfo {
    FuncInfo {
        namespace: script_modules::module::FnNamespace::Global,
        access: script_modules::module::FnAccess::Public,
        name: "f".to_string(),
        params,
        param_names: param_names.map(strings),
        origin,
    }
}

#[test]
fn param_with_name_and_type() {
    assert_eq!(FnParam::parse("x:Int"), param("x", Some("Int")));
}

#[test]
fn param_with_name_only() {
    assert_eq!(FnParam::parse("y"), param("y", None));
}

#[test]
fn param_of_empty_text_gets_the_placeholder() {
    assert_eq!(FnParam::parse(""), param("_", None));
}

#[test]
fn param_parts_are_trimmed() {
    assert_eq!(FnParam::parse("  x  :  Int  "), param("x", Some("Int")));
    assert_eq!(FnParam::parse("\tcount\n"), param("count", None));
    assert_eq!(FnParam::parse(" a b : c d "), param("a b", Some("c d")));
    assert_eq!(FnParam::parse("\u{a0}x\u{3000}:\u{2003}T\u{2028}"), param("x", Some("T")));
}

#[test]
fn param_is_split_at_the_first_colon_only() {
    assert_eq!(FnParam::parse("a:b:c"), param("a", Some("b:c")));
    assert_eq!(FnParam::parse("m: Map<K: Ord, V>"), param("m", Some("Map<K: Ord, V>")));
    assert_eq!(FnParam::parse("x::"), param("x", Some(":")));
}

#[test]
fn param_without_a_name_gets_the_placeholder() {
    assert_eq!(FnParam::parse(":Int"), param("_", Some("Int")));
    assert_eq!(FnParam::parse("   : Int"), param("_", Some("Int")));
    assert_eq!(FnParam::parse("   "), param("_", None));
    assert_eq!(FnParam::parse(":"), param("_", Some("")));
}

#[test]
fn param_with_a_colon_has_a_type_even_if_empty() {
    assert_eq!(FnParam::parse("x:"), param("x", Some("")));
    assert_eq!(FnParam::parse("x:   "), param("x", Some("")));
}

#[test]
fn param_keeps_non_ascii_text() {
    assert_eq!(FnParam::parse("gr\u{f6}\u{df}e: Zahl"), param("gr\u{f6}\u{df}e", Some("Zahl")));
    assert_eq!(FnParam::parse("\u{1f600}"), param("\u{1f600}", None));
}

#[test]
fn empty_raw_list_gives_the_unit_return_type() {
    let metadata = FnMetadata::from_func_info(&info(0, Some(&[]), FnOrigin::Native));
    assert_eq!(metadata.return_type, Some("()".to_string()));
    assert_eq!(metadata.params, vec![]);
    assert_eq!(metadata.num_params, 0);
}

#[test]
fn missing_raw_list_gives_no_return_type() {
    let metadata = FnMetadata::from_func_info(&info(2, None, FnOrigin::Native));
    assert_eq!(metadata.return_type, None);
    assert_eq!(metadata.params, vec![]);
    assert_eq!(metadata.num_params, 2);
}

#[test]
fn native_function_is_normalised() {
    let raw = FuncInfo {
        namespace: script_modules::module::FnNamespace::Internal,
        access: script_modules::module::FnAccess::Private,
        name: "add".to_string(),
        params: 2,
        param_names: Some(strings(&["x: i64", "y: i64", "i64"])),
        origin: FnOrigin::Native,
    };
    let expected = FnMetadata {
        namespace: FnNamespace::Internal,
        access: FnAccess::Private,
        name: "add".to_string(),
        typ: FnType::Native,
        num_params: 2,
        params: vec![param("x", Some("i64")), param("y", Some("i64"))],
        return_type: Some("i64".to_string()),
        doc_comments: None,
    };
    assert_eq!(FnMetadata::from_func_info(&raw), expected);
}

#[test]
fn last_raw_entry_is_the_return_type_as_it_stands() {
    let metadata =
        FnMetadata::from_func_info(&info(1, Some(&["x", "  Result<T: X>  "]), FnOrigin::Native));
    assert_eq!(metadata.return_type, Some("  Result<T: X>  ".to_string()));
    assert_eq!(metadata.params, vec![param("x", None)]);
}

#[test]
fn last_raw_entry_is_the_return_type_even_if_it_is_a_parameter() {
    let metadata = FnMetadata::from_func_info(&info(2, Some(&["a: A", "b: B"]), FnOrigin::Native));
    assert_eq!(metadata.params, vec![param("a", Some("A")), param("b", Some("B"))]);
    assert_eq!(metadata.return_type, Some("b: B".to_string()));
}

#[test]
fn only_the_declared_number_of_parameters_is_taken() {
    let metadata = FnMetadata::from_func_info(&info(
        1,
        Some(&["a: A", "b: B", "c: C", "R"]),
        FnOrigin::Native,
    ));
    assert_eq!(metadata.num_params, 1);
    assert_eq!(metadata.params, vec![param("a", Some("A"))]);
    assert_eq!(metadata.return_type, Some("R".to_string()));
}

#[test]
fn fewer_raw_entries_than_parameters_are_all_taken() {
    let metadata = FnMetadata::from_func_info(&info(5, Some(&["a", "b"]), FnOrigin::Native));
    assert_eq!(metadata.num_params, 5);
    assert_eq!(metadata.params, vec![param("a", None), param("b", None)]);
    assert_eq!(metadata.return_type, Some("b".to_string()));
}

#[test]
fn zero_parameters_with_a_return_hint() {
    let metadata = FnMetadata::from_func_info(&info(0, Some(&["bool"]), FnOrigin::Native));
    assert_eq!(metadata.params, vec![]);
    assert_eq!(metadata.return_type, Some("bool".to_string()));
}

#[test]
fn script_function_in_a_module_carries_its_comments() {
    let metadata = FnMetadata::from_func_info(&info(
        1,
        Some(&["x"]),
        FnOrigin::Script { comments: strings(&["/// first", "/// second"]) },
    ));
    assert_eq!(metadata.typ, FnType::Script);
    assert_eq!(metadata.doc_comments, Some(strings(&["/// first", "/// second"])));
}

#[test]
fn script_function_in_a_module_without_comments_has_an_empty_list() {
    let metadata =
        FnMetadata::from_func_info(&info(0, None, FnOrigin::Script { comments: vec![] }));
    assert_eq!(metadata.typ, FnType::Script);
    assert_eq!(metadata.doc_comments, Some(vec![]));
    assert_eq!(metadata.return_type, None);
}

#[test]
fn native_function_has_no_comments() {
    let metadata = FnMetadata::from_func_info(&info(0, Some(&[]), FnOrigin::Native));
    assert_eq!(metadata.typ, FnType::Native);
    assert_eq!(metadata.doc_comments, None);
}

#[test]
fn function_of_a_compiled_script_is_normalised() {
    let defined = ScriptFnMetadata {
        access: script_modules::module::FnAccess::Private,
        name: "helper".to_string(),
        params: strings(&["a", " b:c "]),
        comments: strings(&["/// does it"]),
    };
    let expected = FnMetadata {
        namespace: FnNamespace::Global,
        access: FnAccess::Private,
        name: "helper".to_string(),
        typ: FnType::Script,
        num_params: 2,
        params: vec![param("a", Some("Dynamic")), param(" b:c ", Some("Dynamic"))],
        return_type: Some("Dynamic".to_string()),
        doc_comments: Some(strings(&["/// does it"])),
    };
    assert_eq!(FnMetadata::from_script_fn(&defined), expected);
}

#[test]
fn function_of_a_compiled_script_without_comments_has_none() {
    let defined = ScriptFnMetadata {
        access: script_modules::module::FnAccess::Public,
        name: "main".to_string(),
        params: vec![],
        comments: vec![],
    };
    let metadata = FnMetadata::from_script_fn(&defined);
    assert_eq!(metadata.doc_comments, None);
    assert_eq!(metadata.num_params, 0);
    assert_eq!(metadata.params, vec![]);
    assert_eq!(metadata.return_type, Some("Dynamic".to_string()));
    assert_eq!(metadata.access, FnAccess::Public);
}

#[test]
fn tags_are_carried_over_one_to_one() {
    assert_eq!(
        FnNamespace::from(script_modules::module::FnNamespace::Global),
        FnNamespace::Global
    );
    assert_eq!(
        FnNamespace::from(script_modules::module::FnNamespace::Internal),
        FnNamespace::Internal
    );
    assert_eq!(FnAccess::from(script_modules::module::FnAccess::Public), FnAccess::Public);
    assert_eq!(FnAccess::from(script_modules::module::FnAccess::Private), FnAccess::Private);
}

#[test]
fn tags_are_spelled_in_lower_case() {
    assert_eq!(FnNamespace::Global.as_str(), "global");
    assert_eq!(FnNamespace::Internal.as_str(), "internal");
    assert_eq!(FnAccess::Public.as_str(), "public");
    assert_eq!(FnAccess::Private.as_str(), "private");
    assert_eq!(FnType::Script.as_str(), "script");
    assert_eq!(FnType::Native.as_str(), "native");
}

#[test]
fn tags_are_read_back_from_their_spelling() {
    for tag in [FnNamespace::Global, FnNamespace::Internal] {
        assert_eq!(FnNamespace::from_spelling(tag.as_str()), Some(tag));
    }
    for tag in [FnAccess::Public, FnAccess::Private] {
        assert_eq!(FnAccess::from_spelling(tag.as_str()), Some(tag));
    }
    for tag in [FnType::Script, FnType::Native] {
        assert_eq!(FnType::from_spelling(tag.as_str()), Some(tag));
    }
    assert_eq!(FnNamespace::from_spelling("Global"), None);
    assert_eq!(FnNamespace::from_spelling(""), None);
    assert_eq!(FnAccess::from_spelling("public "), None);
    assert_eq!(FnType::from_spelling("global"), None);
}

#[test]
fn descriptions_can_be_cloned() {
    let metadata = FnMetadata::from_func_info(&info(
        1,
        Some(&["x: T", "R"]),
        FnOrigin::Script { comments: strings(&["/// c"]) },
    ));
    assert_eq!(metadata.clone(), metadata);
    assert_eq!(param("p", Some("T")).clone(), param("p", Some("T")));
}
