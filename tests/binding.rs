use interop_glue::{parse_fn_args, ArgError, KeywordArgs, ParamDescription};

fn param(name: &str, is_optional: bool, kw_only: bool) -> ParamDescription<'_> {
    ParamDescription { name, is_optional, kw_only }
}

#[test]
fn required_then_optional_positional() {
    let params = [param("a", false, false), param("b", true, false)];
    let args = ["x"];
    let mut out: [Option<&&str>; 2] = [None, None];
    let r = parse_fn_args(Some("f"), &params, &args, None, false, false, &mut out);
    assert_eq!(r, Ok(()));
    assert_eq!(out, [Some(&"x"), None]);
}

#[test]
fn keyword_fills_required_parameter() {
    let params = [param("a", false, false)];
    let args: [&str; 0] = [];
    let mut kw = KeywordArgs::new();
    kw.insert("a", "y");
    let mut out: [Option<&&str>; 1] = [None];
    let r = parse_fn_args(Some("f"), &params, &args, Some(&kw), false, false, &mut out);
    assert_eq!(r, Ok(()));
    assert_eq!(out, [Some(&"y")]);
}

#[test]
fn same_parameter_by_position_and_keyword() {
    let params = [param("a", false, false)];
    let args = ["x"];
    let mut kw = KeywordArgs::new();
    kw.insert("a", "y");
    let mut out: [Option<&&str>; 1] = [None];
    let r = parse_fn_args(Some("f"), &params, &args, Some(&kw), true, false, &mut out);
    let e = r.unwrap_err();
    assert_eq!(e, ArgError::DuplicateBinding { name: "a".to_string(), position: 1 });
    assert_eq!(e.message(), "Argument given by name ('a') and position (1)");
}

#[test]
fn duplicate_reported_even_when_count_is_within_arity() {
    let params = [param("a", false, false), param("b", true, false)];
    let args = ["x"];
    let mut kw = KeywordArgs::new();
    kw.insert("a", "y");
    let mut out: [Option<&&str>; 2] = [None, None];
    let r = parse_fn_args(None, &params, &args, Some(&kw), false, false, &mut out);
    assert_eq!(r, Err(ArgError::DuplicateBinding { name: "a".to_string(), position: 1 }));
}

#[test]
fn duplicate_position_with_two_digits() {
    let names = ["p1", "p2", "p3", "p4", "p5", "p6", "p7", "p8", "p9", "p10", "p11", "p12"];
    let params: Vec<ParamDescription> = names.iter().map(|n| param(n, true, false)).collect();
    let args = [0u8; 12];
    let mut kw = KeywordArgs::new();
    kw.insert("p12", 7u8);
    let mut out: Vec<Option<&u8>> = vec![None; 12];
    let r = parse_fn_args(None, &params, &args, Some(&kw), true, false, &mut out);
    let e = r.unwrap_err();
    assert_eq!(e, ArgError::DuplicateBinding { name: "p12".to_string(), position: 12 });
    assert_eq!(e.message(), "Argument given by name ('p12') and position (12)");
}

#[test]
fn required_keyword_only_missing() {
    let params = [param("a", false, true)];
    let args: [&str; 0] = [];
    let mut out: [Option<&&str>; 1] = [None];
    let r = parse_fn_args(Some("f"), &params, &args, None, false, false, &mut out);
    let e = r.unwrap_err();
    assert_eq!(e, ArgError::MissingKeywordOnlyArgument { name: "a".to_string() });
    assert_eq!(e.message(), "Required argument ('a') is keyword only argument");
}

#[test]
fn required_keyword_only_not_filled_by_position() {
    let params = [param("a", false, true)];
    let args = ["x"];
    let mut out: [Option<&&str>; 1] = [None];
    let r = parse_fn_args(Some("f"), &params, &args, None, false, false, &mut out);
    assert_eq!(r, Err(ArgError::MissingKeywordOnlyArgument { name: "a".to_string() }));
}

#[test]
fn optional_keyword_only_left_unbound() {
    let params = [param("a", false, false), param("k", true, true)];
    let args = ["x", "z"];
    let mut out: [Option<&&str>; 2] = [None, None];
    let r = parse_fn_args(Some("f"), &params, &args, None, true, false, &mut out);
    assert_eq!(r, Ok(()));
    assert_eq!(out, [Some(&"x"), None]);
}

#[test]
fn keyword_only_given_by_keyword() {
    let params = [param("a", false, false), param("k", false, true)];
    let args = ["x"];
    let mut kw = KeywordArgs::new();
    kw.insert("k", "v");
    let mut out: [Option<&&str>; 2] = [None, None];
    let r = parse_fn_args(Some("f"), &params, &args, Some(&kw), false, false, &mut out);
    assert_eq!(r, Ok(()));
    assert_eq!(out, [Some(&"x"), Some(&"v")]);
}

#[test]
fn required_positional_missing() {
    let params = [param("a", false, false), param("b", false, false)];
    let args = ["x"];
    let mut out: [Option<&&str>; 2] = [None, None];
    let r = parse_fn_args(Some("f"), &params, &args, None, false, false, &mut out);
    let e = r.unwrap_err();
    assert_eq!(e, ArgError::MissingPositionalArgument { name: "b".to_string(), position: 2 });
    assert_eq!(e.message(), "Required argument ('b') (pos 2) not found");
}

#[test]
fn too_many_for_one_parameter() {
    let params = [param("a", true, false)];
    let args = ["x", "y"];
    let mut out: [Option<&&str>; 1] = [None];
    let r = parse_fn_args(Some("f"), &params, &args, None, false, false, &mut out);
    let e = r.unwrap_err();
    assert_eq!(
        e,
        ArgError::TooManyArguments { fname: Some("f".to_string()), max: 1, given: 2 }
    );
    assert_eq!(e.message(), "f() takes at most 1 argument (2 given)");
}

#[test]
fn too_many_counts_keywords_and_unnamed_callable() {
    let params = [param("a", true, false), param("b", true, false)];
    let args = ["x"];
    let mut kw = KeywordArgs::new();
    kw.insert("b", "y");
    kw.insert("c", "z");
    let mut out: [Option<&&str>; 2] = [None, None];
    let r = parse_fn_args(None, &params, &args, Some(&kw), false, false, &mut out);
    let e = r.unwrap_err();
    assert_eq!(e, ArgError::TooManyArguments { fname: None, max: 2, given: 3 });
    assert_eq!(e.message(), "function takes at most 2 arguments (3 given)");
}

#[test]
fn too_many_for_no_parameters() {
    let params: [ParamDescription; 0] = [];
    let args = ["x"];
    let mut out: [Option<&&str>; 0] = [];
    let r = parse_fn_args(Some("g"), &params, &args, None, false, false, &mut out);
    let e = r.unwrap_err();
    assert_eq!(e.message(), "g() takes at most 0 arguments (1 given)");
}

#[test]
fn within_arity_never_too_many() {
    let params = [param("a", true, false), param("b", true, false)];
    let args = ["x"];
    let mut kw = KeywordArgs::new();
    kw.insert("b", "y");
    let mut out: [Option<&&str>; 2] = [None, None];
    let r = parse_fn_args(Some("f"), &params, &args, Some(&kw), false, false, &mut out);
    assert_eq!(r, Ok(()));
    assert_eq!(out, [Some(&"x"), Some(&"y")]);
}

#[test]
fn extra_positional_accepted() {
    let params = [param("a", false, false)];
    let args = ["x", "y", "z"];
    let mut out: [Option<&&str>; 1] = [None];
    let r = parse_fn_args(Some("f"), &params, &args, None, true, false, &mut out);
    assert_eq!(r, Ok(()));
    assert_eq!(out, [Some(&"x")]);
}

#[test]
fn unknown_keyword_rejected_then_accepted() {
    let params = [param("a", false, false)];
    let args: [&str; 0] = [];
    let mut kw = KeywordArgs::new();
    kw.insert("a", "y");
    kw.insert("zz", "w");
    let mut out: [Option<&&str>; 1] = [None];
    let r = parse_fn_args(Some("f"), &params, &args, Some(&kw), true, false, &mut out);
    let e = r.unwrap_err();
    assert_eq!(e, ArgError::UnexpectedKeywordArgument { name: "zz".to_string() });
    assert_eq!(e.message(), "'zz' is an invalid keyword argument for this function");

    let mut out2: [Option<&&str>; 1] = [None];
    let r2 = parse_fn_args(Some("f"), &params, &args, Some(&kw), true, true, &mut out2);
    assert_eq!(r2, Ok(()));
    assert_eq!(out2, [Some(&"y")]);
}

#[test]
fn first_unknown_keyword_is_named() {
    let params = [param("a", true, false)];
    let args: [&str; 0] = [];
    let mut kw = KeywordArgs::new();
    kw.insert("q", "1");
    kw.insert("r", "2");
    let mut out: [Option<&&str>; 1] = [None];
    let r = parse_fn_args(Some("f"), &params, &args, Some(&kw), true, false, &mut out);
    assert_eq!(r, Err(ArgError::UnexpectedKeywordArgument { name: "q".to_string() }));
}

#[test]
fn no_parameters_no_arguments() {
    let params: [ParamDescription; 0] = [];
    let args: [&str; 0] = [];
    let kw: KeywordArgs<&str> = KeywordArgs::new();
    let mut out: [Option<&&str>; 0] = [];
    assert_eq!(parse_fn_args(None, &params, &args, None, false, false, &mut out), Ok(()));
    assert_eq!(parse_fn_args(None, &params, &args, Some(&kw), false, false, &mut out), Ok(()));
}

#[test]
fn keyword_names_compared_exactly() {
    let params = [param("é", false, false)];
    let args: [&str; 0] = [];
    let mut kw = KeywordArgs::new();
    kw.insert("e", "y");
    let mut out: [Option<&&str>; 1] = [None];
    let r = parse_fn_args(Some("f"), &params, &args, Some(&kw), false, false, &mut out);
    assert_eq!(r, Err(ArgError::MissingPositionalArgument { name: "é".to_string(), position: 1 }));
}

#[test]
fn keyword_insert_replaces_value() {
    let mut kw = KeywordArgs::new();
    kw.insert("a", 1u32);
    kw.insert("b", 2u32);
    kw.insert("a", 3u32);
    assert_eq!(kw.len(), 2);
    assert_eq!(kw.get_item("a"), Some(&3));
    assert_eq!(kw.get_item("b"), Some(&2));
    assert_eq!(kw.get_item("c"), None);
    assert_eq!(kw.key_at(0), "a");
    assert_eq!(kw.key_at(1), "b");
}
