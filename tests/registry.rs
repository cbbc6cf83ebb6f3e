use nix_bootstrap::registry::{
    add_new_sops_key, find_definition, make_definition_line, make_reference_line, update_sops_key,
    upsert_key, DefinitionUpdate, RegistryError, UpsertOutcome, DEFINITION_INDENT,
    REFERENCE_INDENT,
};

fn doc(lines: &[&str]) -> Vec<String> {
    lines.iter().map(|l| l.to_string()).collect()
}

fn sample() -> Vec<String> {
    doc(&[
        "keys:",
        "  users: &age_keys",
        "    - &alice age1alice",
        "creation_rules:",
        "  - path_regex: secrets.yaml$",
        "    key_groups:",
        "      - age:",
        "          - *alice",
        "# trailing comment",
    ])
}

#[test]
fn canonical_lines_use_block_indentation() {
    assert_eq!(DEFINITION_INDENT, 4);
    assert_eq!(REFERENCE_INDENT, 10);
    assert_eq!(make_definition_line("bob", "age1xyz"), "    - &bob age1xyz");
    assert_eq!(make_reference_line("bob"), "          - *bob");
}

#[test]
fn scenario_insert_after_last_entries_then_noop() {
    let mut lines = sample();
    let r = upsert_key(&mut lines, "users", "bob", "age1xyz");
    assert_eq!(r, Ok(UpsertOutcome::Inserted));
    assert_eq!(
        lines,
        doc(&[
            "keys:",
            "  users: &age_keys",
            "    - &alice age1alice",
            "    - &bob age1xyz",
            "creation_rules:",
            "  - path_regex: secrets.yaml$",
            "    key_groups:",
            "      - age:",
            "          - *alice",
            "          - *bob",
            "# trailing comment",
        ])
    );
    let after_first = lines.clone();
    let r2 = upsert_key(&mut lines, "users", "bob", "age1xyz");
    assert_eq!(r2, Ok(UpsertOutcome::Unchanged));
    assert_eq!(lines, after_first);
}

#[test]
fn upsert_twice_is_unchanged() {
    let mut lines = sample();
    assert_eq!(upsert_key(&mut lines, "users", "carol", "age1c"), Ok(UpsertOutcome::Inserted));
    let snapshot = lines.clone();
    assert_eq!(upsert_key(&mut lines, "users", "carol", "age1c"), Ok(UpsertOutcome::Unchanged));
    assert_eq!(lines, snapshot);
}

#[test]
fn existing_definition_is_updated_in_place() {
    let mut lines = sample();
    let r = upsert_key(&mut lines, "users", "alice", "age1new");
    assert_eq!(r, Ok(UpsertOutcome::Updated));
    let mut expected = sample();
    expected[2] = "    - &alice age1new".to_string();
    assert_eq!(lines, expected);
    assert_eq!(upsert_key(&mut lines, "users", "alice", "age1new"), Ok(UpsertOutcome::Unchanged));
}

#[test]
fn same_value_with_other_indentation_is_unchanged() {
    let mut lines = doc(&["  users: &age_keys", "  - &alice age1alice  ", "- age:", "  - *alice"]);
    let before = lines.clone();
    assert_eq!(update_sops_key(&mut lines, "alice", "age1alice"), DefinitionUpdate::Unchanged);
    assert_eq!(lines, before);
}

#[test]
fn missing_reference_block_leaves_document() {
    let mut lines = doc(&["keys:", "  users: &age_keys", "    - &alice age1alice", "other:"]);
    let before = lines.clone();
    let r = upsert_key(&mut lines, "users", "bob", "age1xyz");
    assert_eq!(r, Err(RegistryError::MissingReferenceBlock));
    assert_eq!(lines, before);
}

#[test]
fn missing_definition_block_leaves_document() {
    let mut lines = doc(&["keys:", "      - age:", "          - *alice"]);
    let before = lines.clone();
    let r = upsert_key(&mut lines, "hosts", "bob", "age1xyz");
    assert_eq!(r, Err(RegistryError::MissingDefinitionBlock));
    assert_eq!(lines, before);
}

#[test]
fn dangling_alias_is_a_duplicate_reference() {
    let mut lines = doc(&["  users: &age_keys", "    - &alice a", "      - age:", "          - *bob"]);
    let before = lines.clone();
    let r = add_new_sops_key(&mut lines, "users", "bob", "age1xyz");
    assert_eq!(r, Err(RegistryError::DuplicateReference));
    assert_eq!(lines, before);
}

#[test]
fn listed_definition_is_a_duplicate_definition() {
    let mut lines = doc(&["  users: &age_keys", "    - &bob age1xyz", "      - age:"]);
    let before = lines.clone();
    let r = add_new_sops_key(&mut lines, "users", "bob", "age1xyz");
    assert_eq!(r, Err(RegistryError::DuplicateDefinition));
    assert_eq!(lines, before);
}

#[test]
fn empty_blocks_get_first_entries() {
    let mut lines = doc(&["  hosts: &age_keys", "x: 1", "      - age:", "y: 2"]);
    let r = upsert_key(&mut lines, "hosts", "web", "age1w");
    assert_eq!(r, Ok(UpsertOutcome::Inserted));
    assert_eq!(
        lines,
        doc(&[
            "  hosts: &age_keys",
            "    - &web age1w",
            "x: 1",
            "      - age:",
            "          - *web",
            "y: 2",
        ])
    );
}

#[test]
fn reference_block_before_definition_block() {
    let mut lines = doc(&["- age:", "  - *alice", "users: &age_keys", "  - &alice a"]);
    let r = upsert_key(&mut lines, "users", "bob", "b");
    assert_eq!(r, Ok(UpsertOutcome::Inserted));
    assert_eq!(
        lines,
        doc(&[
            "- age:",
            "  - *alice",
            "          - *bob",
            "users: &age_keys",
            "  - &alice a",
            "    - &bob b",
        ])
    );
}

#[test]
fn find_definition_takes_first_match() {
    let lines = doc(&["a", "  - &k one", "  - &k two"]);
    assert_eq!(find_definition(&lines, "k"), Some(1));
    assert_eq!(find_definition(&lines, "z"), None);
}

#[test]
fn registry_error_messages() {
    assert_eq!(
        RegistryError::MissingReferenceBlock.message(),
        "registry document has no reference block"
    );
    assert_eq!(
        RegistryError::MissingDefinitionBlock.message(),
        "registry document has no definition block"
    );
}
