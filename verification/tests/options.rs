use stated::designated::{
    find_designated_arg, find_designated_param, get_designated_indices, DesignationError,
};
use stated::documentation::{
    Description, DescriptionLine, DocsError, DocsFault, Documentation,
};
use stated::stateset::{EntryError, OptionError, Stateset};
use stated::syntax::{
    Attribute, AttributeBody, GenericArgument, GenericParam, Meta, MetaForm, Nested, ParamKind,
    Path, PathArguments, PathSegment,
};
use stated::visit::should_modify;

fn segment(name: &str) -> PathSegment {
    PathSegment { ident: name.to_string(), arguments: PathArguments::Absent }
}

fn ident(name: &str) -> Path {
    Path { leading_colon: false, segments: vec![segment(name)] }
}

fn path(names: &[&str]) -> Path {
    Path { leading_colon: false, segments: names.iter().map(|name| segment(name)).collect() }
}

fn list(key: &str, entries: &[&str]) -> Meta {
    Meta {
        path: ident(key),
        form: MetaForm::List,
        nested: entries.iter().map(|name| Nested::Path(ident(name))).collect(),
    }
}

fn bare(key: &str) -> Meta {
    Meta { path: ident(key), form: MetaForm::Path, nested: Vec::new() }
}

fn marker() -> Attribute {
    Attribute { path: ident("stated"), body: AttributeBody::Path }
}

fn other_attr(name: &str) -> Attribute {
    Attribute { path: ident(name), body: AttributeBody::Path }
}

fn param(kind: ParamKind, name: &str, attrs: Vec<Attribute>) -> GenericParam {
    GenericParam { kind, ident: name.to_string(), attrs }
}

fn type_param(name: &str, attrs: Vec<Attribute>) -> GenericParam {
    param(ParamKind::Type, name, attrs)
}

fn strings(list: &[&str]) -> Vec<String> {
    list.iter().map(|name| name.to_string()).collect()
}

#[test]
fn path_of_one_plain_segment_is_an_ident() {
    assert!(ident("stated").is_ident("stated"));
    assert!(!ident("stated").is_ident("state"));
    assert_eq!(ident("A").get_ident(), Some(&"A".to_string()));
    assert!(!path(&["a", "stated"]).is_ident("stated"));
    assert_eq!(path(&["a", "b"]).get_ident(), None);
    assert_eq!(path(&[]).get_ident(), None);
    let global = Path { leading_colon: true, segments: vec![segment("stated")] };
    assert!(!global.is_ident("stated"));
    let generic = Path {
        leading_colon: false,
        segments: vec![PathSegment {
            ident: "S".to_string(),
            arguments: PathArguments::AngleBracketed(Vec::new()),
        }],
    };
    assert!(!generic.is_ident("S"));
    let called = Path {
        leading_colon: false,
        segments: vec![PathSegment {
            ident: "S".to_string(),
            arguments: PathArguments::Parenthesized,
        }],
    };
    assert_eq!(called.get_ident(), None);
}

#[test]
fn attribute_shapes() {
    assert!(marker().is_marker());
    assert!(marker().is_path_only());
    assert!(!other_attr("doc").is_marker());
    let with_list = Attribute { path: ident("stated"), body: AttributeBody::Options(Vec::new()) };
    assert!(with_list.is_marker());
    assert!(!with_list.is_path_only());
    let with_value = Attribute { path: ident("stated"), body: AttributeBody::NameValue };
    assert!(!with_value.is_path_only());
    let broken = Attribute { path: ident("stated"), body: AttributeBody::Malformed };
    assert!(!broken.is_path_only());
}

#[test]
fn unsupported_kind_has_no_list() {
    let stateset = Stateset::default();
    assert_eq!(stateset.get("states"), None);
    let stateset = stateset.support("states");
    assert_eq!(stateset.get("states"), Some(&Vec::new()));
    assert_eq!(stateset.get("preset"), None);
}

#[test]
fn options_fill_their_kinds_in_order() {
    let mut stateset = Stateset::default().support("states").support("preset");
    let metas = vec![list("states", &["A", "B"]), list("preset", &["B"]), list("states", &["C"])];
    assert_eq!(stateset.extend_with_metas(&metas), Ok(()));
    assert_eq!(stateset.get("states"), Some(&strings(&["A", "B", "C"])));
    assert_eq!(stateset.get("preset"), Some(&strings(&["B"])));
}

#[test]
fn options_of_other_kinds_are_skipped() {
    let mut stateset = Stateset::default().support("states");
    assert_eq!(stateset.extend_with_meta(&list("docs", &["ugly"])), Ok(()));
    assert_eq!(stateset.extend_with_meta(&bare("preset")), Ok(()));
    assert_eq!(stateset.get("states"), Some(&Vec::new()));
    assert_eq!(stateset.get("docs"), None);
}

#[test]
fn support_again_empties_the_list() {
    let mut stateset = Stateset::default().support("states").support("preset");
    assert_eq!(stateset.extend_with_meta(&list("states", &["A"])), Ok(()));
    assert_eq!(stateset.extend_with_meta(&list("preset", &["A"])), Ok(()));
    let stateset = stateset.support("states");
    assert_eq!(stateset.get("states"), Some(&Vec::new()));
    assert_eq!(stateset.get("preset"), Some(&strings(&["A"])));
}

#[test]
fn key_must_be_an_identifier() {
    let mut stateset = Stateset::default().support("states");
    let meta = Meta { path: path(&["a", "states"]), form: MetaForm::List, nested: Vec::new() };
    assert_eq!(stateset.extend_with_meta(&meta), Err(EntryError::KeyNotIdent));
}

#[test]
fn supported_key_needs_a_list() {
    let mut stateset = Stateset::default().support("states");
    assert_eq!(stateset.extend_with_meta(&bare("states")), Err(EntryError::ExpectedList));
    let valued = Meta { path: ident("states"), form: MetaForm::NameValue, nested: Vec::new() };
    assert_eq!(stateset.extend_with_meta(&valued), Err(EntryError::ExpectedList));
}

#[test]
fn faulty_entry_ends_the_reading_and_keeps_what_came_before() {
    let mut stateset = Stateset::default().support("states");
    let meta = Meta {
        path: ident("states"),
        form: MetaForm::List,
        nested: vec![
            Nested::Path(ident("A")),
            Nested::Path(ident("B")),
            Nested::Malformed,
            Nested::Path(ident("C")),
        ],
    };
    assert_eq!(stateset.extend_with_meta(&meta), Err(EntryError::MalformedEntry { entry: 2 }));
    assert_eq!(stateset.get("states"), Some(&strings(&["A", "B"])));

    let mut stateset = Stateset::default().support("states");
    let meta = Meta {
        path: ident("states"),
        form: MetaForm::List,
        nested: vec![Nested::Path(path(&["a", "B"])), Nested::Path(ident("C"))],
    };
    assert_eq!(stateset.extend_with_meta(&meta), Err(EntryError::EntryNotIdent { entry: 0 }));
    assert_eq!(stateset.get("states"), Some(&Vec::new()));
}

#[test]
fn first_refused_option_is_reported_with_its_position() {
    let mut stateset = Stateset::default().support("states").support("preset");
    let metas = vec![list("states", &["A"]), bare("preset"), list("states", &["B"])];
    assert_eq!(
        stateset.extend_with_metas(&metas),
        Err(OptionError { meta: 1, error: EntryError::ExpectedList })
    );
    assert_eq!(stateset.get("states"), Some(&strings(&["A"])));
}

#[test]
fn documentation_is_off_by_default() {
    let docs = Documentation::default();
    assert!(!docs.description);
    assert!(!docs.ugly);
}

#[test]
fn docs_option_switches_toggles_on() {
    let mut docs = Documentation::default();
    let metas = vec![list("states", &["A"]), list("docs", &["description"])];
    assert_eq!(docs.configure_with_metas(&metas), Ok(()));
    assert_eq!(docs, Documentation { description: true, ugly: false });

    let mut docs = Documentation::default();
    let metas = vec![list("docs", &["ugly"]), list("docs", &["description"])];
    assert_eq!(docs.configure_with_metas(&metas), Ok(()));
    assert_eq!(docs, Documentation { description: true, ugly: true });

    let mut docs = Documentation::default();
    assert_eq!(docs.configure_with_metas(&vec![list("docs", &[])]), Ok(()));
    assert_eq!(docs, Documentation { description: false, ugly: false });
}

#[test]
fn docs_option_refuses_repetition() {
    let mut docs = Documentation::default();
    let metas = vec![list("docs", &["description", "ugly", "description"])];
    assert_eq!(
        docs.configure_with_metas(&metas),
        Err(DocsError { meta: 0, fault: DocsFault::RedundantDescription { entry: 2 } })
    );
    assert_eq!(docs, Documentation { description: true, ugly: true });

    let mut docs = Documentation::default();
    let metas = vec![list("docs", &["ugly"]), list("preset", &[]), list("docs", &["ugly"])];
    assert_eq!(
        docs.configure_with_metas(&metas),
        Err(DocsError { meta: 2, fault: DocsFault::RedundantUgly { entry: 0 } })
    );
    assert_eq!(
        DocsFault::RedundantDescription { entry: 2 }.message(),
        "redundant `description` attribute"
    );
    assert_eq!(DocsFault::RedundantUgly { entry: 0 }.message(), "redundant `ugly` attribute");
}

#[test]
fn docs_option_refuses_other_entries() {
    let mut docs = Documentation::default();
    assert_eq!(
        docs.configure_with_metas(&vec![list("docs", &["pretty"])]),
        Err(DocsError { meta: 0, fault: DocsFault::InvalidAttribute { entry: 0 } })
    );
    assert_eq!(DocsFault::InvalidAttribute { entry: 0 }.message(), "invalid attribute");

    let mut docs = Documentation::default();
    assert_eq!(
        docs.configure_with_metas(&vec![bare("docs")]),
        Err(DocsError { meta: 0, fault: DocsFault::ExpectedList })
    );

    let mut docs = Documentation::default();
    let meta = Meta {
        path: ident("docs"),
        form: MetaForm::List,
        nested: vec![Nested::Path(ident("ugly")), Nested::Malformed],
    };
    assert_eq!(
        docs.configure_with_metas(&vec![meta]),
        Err(DocsError { meta: 0, fault: DocsFault::MalformedEntry { entry: 1 } })
    );
    assert!(docs.ugly);
}

#[test]
fn description_lists_states_under_their_labels() {
    let mut stateset = Stateset::default().support("states").support("preset");
    let metas = vec![list("states", &["A", "B", "C"]), list("preset", &["A"])];
    assert_eq!(stateset.extend_with_metas(&metas), Ok(()));
    let text = Description::new(&stateset)
        .line(DescriptionLine::new("states").label("States"))
        .line(DescriptionLine::new("preset").label("Preset"))
        .generate();
    assert_eq!(text, "<!-- -->  \n**States**: A, B, C  \n**Preset**: A");
}

#[test]
fn description_leaves_out_empty_lines() {
    let mut stateset = Stateset::default()
        .support("assert")
        .support("reject")
        .support("assign")
        .support("delete");
    let metas = vec![list("assign", &["HasBody"]), list("reject", &["HasBody", "Sent"])];
    assert_eq!(stateset.extend_with_metas(&metas), Ok(()));
    let text = Description::new(&stateset)
        .line(DescriptionLine::new("assert").label("Assert"))
        .line(DescriptionLine::new("reject").label("Reject"))
        .line(DescriptionLine::new("assign").label("Assign"))
        .line(DescriptionLine::new("delete").label("Delete"))
        .generate();
    assert_eq!(text, "<!-- -->  \n**Reject**: HasBody, Sent  \n**Assign**: HasBody");
}

#[test]
fn description_without_lines_is_the_empty_comment() {
    let stateset = Stateset::default().support("states");
    assert_eq!(Description::new(&stateset).generate(), "<!-- -->");
    let text = Description::new(&stateset).line(DescriptionLine::new("states")).generate();
    assert_eq!(text, "<!-- -->");
}

#[test]
fn line_without_label_is_headed_by_its_attribute() {
    let mut stateset = Stateset::default().support("states");
    assert_eq!(stateset.extend_with_meta(&list("states", &["A", "B"])), Ok(()));
    let text = Description::new(&stateset).line(DescriptionLine::new("states")).generate();
    assert_eq!(text, "<!-- -->  \n**states**: A, B");
}

#[test]
fn single_marker_designates_its_parameter() {
    let params = vec![type_param("S", vec![marker()])];
    assert_eq!(get_designated_indices(&params), Ok((0, 0)));
    assert_eq!(find_designated_param(&params), Ok((0, 0)));

    let params = vec![
        param(ParamKind::Lifetime, "'a", Vec::new()),
        type_param("T", vec![other_attr("cfg")]),
        type_param("S", vec![other_attr("doc"), other_attr("cfg"), marker()]),
        param(ParamKind::Const, "N", Vec::new()),
    ];
    assert_eq!(get_designated_indices(&params), Ok((2, 2)));
    assert_eq!(find_designated_param(&params), Ok((2, 2)));
}

#[test]
fn no_marker_designates_nothing() {
    let params = vec![type_param("S", Vec::new()), type_param("T", vec![other_attr("doc")])];
    assert_eq!(get_designated_indices(&params), Err(DesignationError::NoParameter));
    assert_eq!(find_designated_param(&params), Err(DesignationError::NoParameter));
    assert_eq!(get_designated_indices(&Vec::new()), Err(DesignationError::NoParameter));
    assert_eq!(DesignationError::NoParameter.message(), "no parameter is designated");
}

#[test]
fn markers_on_other_kinds_of_parameter_are_not_read() {
    let params = vec![
        param(ParamKind::Lifetime, "'a", vec![marker()]),
        param(ParamKind::Const, "N", vec![marker(), marker()]),
    ];
    assert_eq!(get_designated_indices(&params), Err(DesignationError::NoParameter));
    assert_eq!(find_designated_param(&params), Err(DesignationError::NoParameter));
}

#[test]
fn second_marker_on_one_parameter_is_refused() {
    let params = vec![type_param("S", vec![marker(), other_attr("doc"), marker()])];
    let twice = Err(DesignationError::AlreadyDesignated { param: 0, attr: 2 });
    assert_eq!(get_designated_indices(&params), twice);
    assert_eq!(find_designated_param(&params), twice);
    assert_eq!(
        DesignationError::AlreadyDesignated { param: 0, attr: 2 }.message(),
        "parameter is already designated"
    );
}

#[test]
fn second_designated_parameter_is_refused() {
    let params = vec![
        type_param("S", vec![marker()]),
        type_param("T", Vec::new()),
        type_param("U", vec![marker()]),
    ];
    let more = Err(DesignationError::MoreThanOneParameter { param: 2 });
    assert_eq!(get_designated_indices(&params), more);
    assert_eq!(find_designated_param(&params), more);
    assert_eq!(
        DesignationError::MoreThanOneParameter { param: 2 }.message(),
        "cannot designate more than one parameter"
    );
}

#[test]
fn marker_with_arguments_is_refused() {
    let with_list = Attribute { path: ident("stated"), body: AttributeBody::Options(Vec::new()) };
    let params = vec![type_param("S", vec![with_list])];
    let fault = Err(DesignationError::MarkerWithArguments { param: 0, attr: 0 });
    assert_eq!(get_designated_indices(&params), fault);
    assert_eq!(find_designated_param(&params), fault);
    assert_eq!(
        DesignationError::MarkerWithArguments { param: 0, attr: 0 }.message(),
        "unexpected token in attribute"
    );
}

#[test]
fn the_two_locators_name_different_faults_where_there_are_several() {
    let with_value = || Attribute { path: ident("stated"), body: AttributeBody::NameValue };
    let params = vec![type_param("S", vec![marker(), marker(), with_value()])];
    assert_eq!(
        get_designated_indices(&params),
        Err(DesignationError::AlreadyDesignated { param: 0, attr: 1 })
    );
    assert_eq!(
        find_designated_param(&params),
        Err(DesignationError::MarkerWithArguments { param: 0, attr: 2 })
    );

    let params = vec![
        type_param("S", vec![marker()]),
        type_param("T", vec![marker()]),
        type_param("U", vec![marker(), marker()]),
    ];
    assert_eq!(
        get_designated_indices(&params),
        Err(DesignationError::MoreThanOneParameter { param: 1 })
    );
    assert_eq!(
        find_designated_param(&params),
        Err(DesignationError::AlreadyDesignated { param: 2, attr: 1 })
    );
}

#[test]
fn one_argument_must_name_the_parameter() {
    let s = "S".to_string();
    let arg = |name: &str| GenericArgument::Ident(name.to_string());
    assert_eq!(find_designated_arg(&vec![arg("S")], &s), Ok(0));
    assert_eq!(find_designated_arg(&vec![arg("T"), GenericArgument::Other, arg("S")], &s), Ok(2));
    assert_eq!(find_designated_arg(&vec![arg("T")], &s), Err(DesignationError::NoArgument));
    assert_eq!(find_designated_arg(&Vec::new(), &s), Err(DesignationError::NoArgument));
    assert_eq!(
        find_designated_arg(&vec![GenericArgument::Other], &s),
        Err(DesignationError::NoArgument)
    );
    assert_eq!(
        find_designated_arg(&vec![arg("S"), arg("T"), arg("S"), arg("S")], &s),
        Err(DesignationError::MoreThanOneArgument { arg: 2 })
    );
    assert_eq!(
        DesignationError::NoArgument.message(),
        "no argument matches the designated parameter"
    );
    assert_eq!(
        DesignationError::MoreThanOneArgument { arg: 2 }.message(),
        "only one argument can match the designated parameter"
    );
}

#[test]
fn construction_is_matched_by_identifiers_alone() {
    assert!(should_modify(&ident("Struct"), &ident("Struct")));
    assert!(!should_modify(&ident("Struct"), &ident("Other")));
    assert!(should_modify(&path(&["a", "b", "Struct"]), &path(&["a", "b", "Struct"])));
    assert!(!should_modify(&path(&["a", "b", "Struct"]), &ident("Struct")));
    assert!(!should_modify(&path(&["a", "b", "Struct"]), &path(&["a", "c", "Struct"])));
    assert!(should_modify(&path(&[]), &path(&[])));
    let generic = Path {
        leading_colon: true,
        segments: vec![
            segment("a"),
            segment("b"),
            PathSegment {
                ident: "Struct".to_string(),
                arguments: PathArguments::AngleBracketed(vec![GenericArgument::Ident(
                    "T".to_string(),
                )]),
            },
        ],
    };
    assert!(should_modify(&generic, &path(&["a", "b", "Struct"])));
}
