use stated::declaration::{
    check_declaration, declaration_stateset, first_foreign_to_declaration,
    first_foreign_to_rules, list_of, rule_stateset, ExpandError,
};
use stated::documentation::DocsFault;
use stated::names::{contains, copy_names, first_missing, first_set, first_shared};
use stated::stateset::EntryError;
use stated::syntax::{Meta, MetaForm, Nested, Path, PathArguments, PathSegment};

fn names(list: &[&str]) -> Vec<String> {
    list.iter().map(|name| name.to_string()).collect()
}

fn ident(name: &str) -> Path {
    Path {
        leading_colon: false,
        segments: vec![PathSegment { ident: name.to_string(), arguments: PathArguments::Absent }],
    }
}

fn list(key: &str, entries: &[&str]) -> Meta {
    Meta {
        path: ident(key),
        form: MetaForm::List,
        nested: entries.iter().map(|name| Nested::Path(ident(name))).collect(),
    }
}

#[test]
fn first_set_starts_where_it_is_told() {
    let flags = vec![false, true, false, true];
    assert_eq!(first_set(&flags, 0), Some(1));
    assert_eq!(first_set(&flags, 1), Some(1));
    assert_eq!(first_set(&flags, 2), Some(3));
    assert_eq!(first_set(&flags, 4), None);
    assert_eq!(first_set(&flags, 9), None);
    assert_eq!(first_set(&Vec::new(), 0), None);
    assert_eq!(first_set(&vec![false, false], 0), None);
}

#[test]
fn contains_compares_whole_names() {
    let list = names(&["A", "HasBody", "B"]);
    assert!(contains(&list, &"HasBody".to_string()));
    assert!(!contains(&list, &"Has".to_string()));
    assert!(!contains(&list, &"hasbody".to_string()));
    assert!(!contains(&Vec::new(), &"A".to_string()));
}

#[test]
fn first_missing_and_first_shared_find_the_earliest_entry() {
    let declared = names(&["A", "B", "C"]);
    assert_eq!(first_missing(&names(&["C", "A"]), &declared), None);
    assert_eq!(first_missing(&names(&["C", "D", "E"]), &declared), Some(1));
    assert_eq!(first_missing(&names(&["A"]), &Vec::new()), Some(0));
    assert_eq!(first_missing(&Vec::new(), &declared), None);
    assert_eq!(first_shared(&names(&["D", "E"]), &declared), None);
    assert_eq!(first_shared(&names(&["D", "C", "A"]), &declared), Some(1));
    assert_eq!(first_shared(&declared, &Vec::new()), None);
}

#[test]
fn copy_keeps_names_and_order() {
    let list = names(&["B", "A", "B"]);
    assert_eq!(copy_names(&list), list);
    assert_eq!(copy_names(&Vec::new()), Vec::<String>::new());
}

#[test]
fn foreign_keys_are_found_by_position() {
    let metas = vec![list("states", &[]), list("preset", &[]), list("docs", &[])];
    assert_eq!(first_foreign_to_declaration(&metas), None);
    assert_eq!(first_foreign_to_rules(&metas), Some(0));
    let metas =
        vec![list("assert", &[]), list("reject", &[]), list("assign", &[]), list("delete", &[])];
    assert_eq!(first_foreign_to_rules(&metas), None);
    assert_eq!(first_foreign_to_declaration(&metas), Some(0));
    let metas = vec![list("states", &[]), list("state", &[]), list("Preset", &[])];
    assert_eq!(first_foreign_to_declaration(&metas), Some(1));
    let qualified = Meta {
        path: Path {
            leading_colon: true,
            segments: vec![PathSegment {
                ident: "assert".to_string(),
                arguments: PathArguments::Absent,
            }],
        },
        form: MetaForm::List,
        nested: Vec::new(),
    };
    assert_eq!(first_foreign_to_rules(&vec![list("assert", &[]), qualified]), Some(1));
    assert_eq!(first_foreign_to_rules(&Vec::new()), None);
}

#[test]
fn statesets_of_the_two_readers_support_their_kinds() {
    let declaration = declaration_stateset();
    assert_eq!(declaration.get("states"), Some(&Vec::new()));
    assert_eq!(declaration.get("preset"), Some(&Vec::new()));
    assert_eq!(declaration.get("docs"), None);
    assert_eq!(declaration.get("assert"), None);
    let rules = rule_stateset();
    for kind in ["assert", "reject", "assign", "delete"] {
        assert_eq!(rules.get(kind), Some(&Vec::new()));
    }
    assert_eq!(rules.get("states"), None);
}

#[test]
fn list_of_copies_the_states_of_a_kind() {
    let mut stateset = declaration_stateset();
    assert_eq!(stateset.extend_with_meta(&list("states", &["A", "B"])), Ok(()));
    assert_eq!(list_of(&stateset, "states"), names(&["A", "B"]));
    assert_eq!(list_of(&stateset, "preset"), Vec::<String>::new());
}

#[test]
fn declaration_faults_come_in_their_order() {
    assert_eq!(check_declaration(&names(&["A", "B"]), &names(&["B"])), None);
    assert_eq!(check_declaration(&names(&["A"]), &Vec::new()), None);
    assert_eq!(check_declaration(&Vec::new(), &names(&["A", "A"])), Some(ExpandError::NoStates));
    assert_eq!(
        check_declaration(&names(&["A", "B", "B", "A"]), &names(&["C", "C"])),
        Some(ExpandError::StateAlreadyDeclared { state: 2 })
    );
    assert_eq!(
        check_declaration(&names(&["A", "B"]), &names(&["C", "B", "B"])),
        Some(ExpandError::StateAlreadyPreset { state: 2 })
    );
    assert_eq!(
        check_declaration(&names(&["A", "B"]), &names(&["B", "C", "D"])),
        Some(ExpandError::PresetNotDeclared { state: 1 })
    );
}

#[test]
fn option_faults_carry_their_diagnostics() {
    assert_eq!(EntryError::KeyNotIdent.message(), "expected this path to be an identifier");
    assert_eq!(
        EntryError::EntryNotIdent { entry: 0 }.message(),
        "expected this path to be an identifier"
    );
    assert_eq!(
        EntryError::ExpectedList.message(),
        "expected attribute arguments in parentheses"
    );
    assert_eq!(EntryError::MalformedEntry { entry: 3 }.message(), "expected `,`");
    assert_eq!(
        DocsFault::ExpectedList.message(),
        "expected attribute arguments in parentheses"
    );
    assert_eq!(DocsFault::MalformedEntry { entry: 1 }.message(), "expected `,`");
}
