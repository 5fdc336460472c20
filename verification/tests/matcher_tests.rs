use graphql_search::ast::{Definition, Document, OperationKind, Selection};
use graphql_search::fieldpath::split_path;
use graphql_search::matcher::{any_document_matches, field_path_exists, query_contains_path};

fn field(name: &str, children: Vec<Selection>) -> Selection {
    Selection::Field { name: name.to_string(), children }
}

fn leaf(name: &str) -> Selection {
    field(name, vec![])
}

fn query_doc(root: Vec<Selection>) -> Document {
    Document { definitions: vec![Definition::Operation { kind: OperationKind::Query, root }] }
}

/// `query { user { profile { email } } }` as a document.
fn user_profile_email_doc() -> Document {
    query_doc(vec![field("user", vec![field("profile", vec![leaf("email")])])])
}

#[test]
fn full_chain_matches() {
    let doc = user_profile_email_doc();
    let path = split_path("user.profile.email");
    assert!(query_contains_path(&doc, &path));
}

#[test]
fn different_leaf_does_not_match() {
    let doc = query_doc(vec![field("user", vec![field("profile", vec![leaf("name")])])]);
    let path = split_path("user.profile.email");
    assert!(!query_contains_path(&doc, &path));
}

#[test]
fn prefix_of_chain_matches() {
    let doc = user_profile_email_doc();
    let path = split_path("user.profile");
    assert!(query_contains_path(&doc, &path));
}

#[test]
fn path_longer_than_chain_does_not_match() {
    let doc = user_profile_email_doc();
    let path = split_path("user.profile.email.domain");
    assert!(!query_contains_path(&doc, &path));
}

#[test]
fn path_must_start_at_root() {
    let doc = user_profile_email_doc();
    let path = split_path("profile.email");
    assert!(!query_contains_path(&doc, &path));
}

#[test]
fn sibling_fields_are_searched() {
    let doc = query_doc(vec![field(
        "user",
        vec![leaf("id"), field("profile", vec![leaf("age"), leaf("email")])],
    )]);
    let path = split_path("user.profile.email");
    assert!(query_contains_path(&doc, &path));
}

#[test]
fn inline_fragment_is_transparent() {
    let wrapped = Selection::InlineFragment {
        type_condition: Some("Admin".to_string()),
        children: vec![field("profile", vec![leaf("email")])],
    };
    let doc = query_doc(vec![field("user", vec![wrapped])]);
    let path = split_path("user.profile.email");
    assert!(query_contains_path(&doc, &path));
}

#[test]
fn inline_fragment_does_not_consume_a_segment() {
    let wrapped = Selection::InlineFragment {
        type_condition: None,
        children: vec![field("profile", vec![leaf("email")])],
    };
    let doc = query_doc(vec![field("user", vec![wrapped])]);
    // `Admin` is no segment of the chain, so a path naming it fails.
    let path = split_path("user.Admin.profile.email");
    assert!(!query_contains_path(&doc, &path));
}

#[test]
fn fragment_spread_is_not_resolved() {
    let doc = Document {
        definitions: vec![
            Definition::Operation {
                kind: OperationKind::Query,
                root: vec![field(
                    "user",
                    vec![Selection::FragmentSpread { name: "profileFields".to_string() }],
                )],
            },
            Definition::Fragment {
                name: "profileFields".to_string(),
                root: vec![field("profile", vec![leaf("email")])],
            },
        ],
    };
    let path = split_path("user.profile.email");
    assert!(!query_contains_path(&doc, &path));
}

#[test]
fn fragment_definition_is_a_search_root() {
    let doc = Document {
        definitions: vec![Definition::Fragment {
            name: "profileFields".to_string(),
            root: vec![field("profile", vec![leaf("email")])],
        }],
    };
    let path = split_path("profile.email");
    assert!(query_contains_path(&doc, &path));
}

#[test]
fn all_operation_kinds_are_searched() {
    let kinds = vec![
        OperationKind::SelectionSet,
        OperationKind::Query,
        OperationKind::Mutation,
        OperationKind::Subscription,
    ];
    for kind in kinds {
        let doc = Document {
            definitions: vec![Definition::Operation {
                kind,
                root: vec![field("user", vec![leaf("email")])],
            }],
        };
        let path = split_path("user.email");
        assert!(query_contains_path(&doc, &path));
    }
}

#[test]
fn later_definition_can_match() {
    let doc = Document {
        definitions: vec![
            Definition::Operation { kind: OperationKind::Query, root: vec![leaf("other")] },
            Definition::Operation {
                kind: OperationKind::Mutation,
                root: vec![field("user", vec![leaf("email")])],
            },
        ],
    };
    let path = split_path("user.email");
    assert!(query_contains_path(&doc, &path));
}

#[test]
fn empty_document_does_not_match() {
    let doc = Document { definitions: vec![] };
    let path = split_path("user");
    assert!(!query_contains_path(&doc, &path));
}

#[test]
fn matching_is_repeatable() {
    let doc = user_profile_email_doc();
    let path = split_path("user.profile.email");
    let first = query_contains_path(&doc, &path);
    let second = query_contains_path(&doc, &path);
    assert_eq!(first, second);
    assert!(first);
}

#[test]
fn single_selection_matches_directly() {
    let sel = field("user", vec![leaf("email")]);
    let path = split_path("user.email");
    assert!(field_path_exists(&sel, &path));
    assert!(!field_path_exists(&sel, &split_path("user.id")));
}

#[test]
fn unparsable_then_matching_document_matches() {
    let docs = vec![None, Some(user_profile_email_doc())];
    let path = split_path("user.profile.email");
    assert!(any_document_matches(&docs, &path));
}

#[test]
fn no_document_matches_when_all_fail_to_parse() {
    let docs: Vec<Option<Document>> = vec![None, None];
    let path = split_path("user");
    assert!(!any_document_matches(&docs, &path));
}

#[test]
fn split_path_on_dots() {
    assert_eq!(
        split_path("user.profile.email"),
        vec!["user".to_string(), "profile".to_string(), "email".to_string()]
    );
}

#[test]
fn split_path_without_dot_is_one_segment() {
    assert_eq!(split_path("user"), vec!["user".to_string()]);
}

#[test]
fn split_path_of_empty_string_is_one_empty_segment() {
    assert_eq!(split_path(""), vec![String::new()]);
}

#[test]
fn split_path_keeps_empty_segments() {
    assert_eq!(split_path("a..b"), vec!["a".to_string(), String::new(), "b".to_string()]);
    assert_eq!(split_path("."), vec![String::new(), String::new()]);
}
