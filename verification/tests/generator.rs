use mini_query::generator::{
    synthesize, Binding, Identity, Lookup, LookupKind, Operations, RecordDecl,
};
use mini_query::options::{Annotation, ConfigError, MetaItem, MetaValue};
use mini_query::plan::{FieldDecl, FieldPlan};

fn flag(key: &str) -> MetaItem {
    MetaItem { key: key.to_string(), value: MetaValue::Flag }
}

fn text(key: &str, value: &str) -> MetaItem {
    MetaItem { key: key.to_string(), value: MetaValue::Str(value.to_string()) }
}

fn ty(key: &str, value: &str) -> MetaItem {
    MetaItem { key: key.to_string(), value: MetaValue::TypeRef(value.to_string()) }
}

fn annotation(items: Vec<MetaItem>) -> Annotation {
    Annotation { outer: true, name: "mini_query".to_string(), items: Some(items) }
}

fn field(name: &str, items: Vec<MetaItem>) -> FieldDecl {
    FieldDecl { name: name.to_string(), annotations: vec![annotation(items)] }
}

fn record(items: Vec<MetaItem>, fields: Vec<FieldDecl>) -> RecordDecl {
    RecordDecl { annotations: vec![annotation(items)], fields }
}

fn binding(field: &str, column: &str, cast_type: Option<&str>) -> Binding {
    Binding {
        field: field.to_string(),
        column: column.to_string(),
        cast_type: cast_type.map(|ty| ty.to_string()),
    }
}

fn people() -> RecordDecl {
    record(
        vec![text("table_name", "people")],
        vec![
            field("id", vec![flag("primary_key")]),
            field("fullName", vec![text("rename", "full_name"), flag("get_by")]),
            field("age", vec![ty("cast", "i16")]),
        ],
    )
}

#[test]
fn people_are_mapped_to_their_table() {
    let operations = mini_query::derive(&people()).unwrap();
    assert_eq!(
        operations,
        Operations {
            table_name: "people".to_string(),
            field_names: vec!["full_name".to_string(), "age".to_string()],
            decode: vec![
                binding("id", "id", None),
                binding("fullName", "full_name", None),
                binding("age", "age", Some("i16")),
            ],
            params: vec![
                binding("fullName", "full_name", None),
                binding("age", "age", Some("i16")),
            ],
            all_query: "SELECT * FROM people".to_string(),
            insert_query: "INSERT INTO people (full_name,age) VALUES ($1,$2)".to_string(),
            insert_query_returning:
                "INSERT INTO people (full_name,age) VALUES ($1,$2) RETURNING *".to_string(),
            lookups: vec![Lookup {
                kind: LookupKind::Many,
                method: "get_by_fullName".to_string(),
                field: "fullName".to_string(),
                query: "SELECT * FROM people WHERE full_name = $1".to_string(),
            }],
            identity: Some(Identity {
                key: binding("id", "id", None),
                get_query: "SELECT * FROM people WHERE id = $1".to_string(),
                update_query: "UPDATE people SET full_name=$2,age=$3 WHERE id=$1 RETURNING *"
                    .to_string(),
            }),
        }
    );
}

#[test]
fn people_renamed_by_rule_have_the_same_queries() {
    let by_rule = record(
        vec![text("table_name", "people"), text("rename_all", "snake_case")],
        vec![
            field("id", vec![flag("primary_key")]),
            field("fullName", vec![flag("get_by")]),
            field("age", vec![ty("cast", "i16")]),
        ],
    );
    let operations = mini_query::derive(&by_rule).unwrap();
    let expected = mini_query::derive(&people()).unwrap();
    assert_eq!(operations.insert_query, "INSERT INTO people (full_name,age) VALUES ($1,$2)");
    assert_eq!(operations.lookups[0].query, "SELECT * FROM people WHERE full_name = $1");
    assert_eq!(operations, expected);
}

#[test]
fn the_last_of_two_primary_keys_wins() {
    let twice = record(
        vec![text("table_name", "t")],
        vec![
            field("a", vec![flag("primary_key")]),
            field("b", vec![]),
            field("c", vec![flag("primary_key"), ty("cast", "i64")]),
        ],
    );
    let operations = mini_query::derive(&twice).unwrap();
    let identity = operations.identity.unwrap();
    assert_eq!(identity.key, binding("c", "c", Some("i64")));
    assert_eq!(identity.get_query, "SELECT * FROM t WHERE c = $1");
    assert_eq!(identity.update_query, "UPDATE t SET b=$2 WHERE id=$1 RETURNING *");
    assert_eq!(operations.field_names, vec!["b".to_string()]);
    assert_eq!(operations.insert_query, "INSERT INTO t (b) VALUES ($1)");
    assert_eq!(
        operations.decode,
        vec![binding("a", "a", None), binding("b", "b", None), binding("c", "c", Some("i64"))]
    );
}

#[test]
fn without_a_primary_key_there_is_no_identity() {
    let plain = record(vec![text("table_name", "t")], vec![field("a", vec![])]);
    let operations = mini_query::derive(&plain).unwrap();
    assert_eq!(operations.identity, None);
    assert_eq!(operations.field_names, vec!["a".to_string()]);
}

#[test]
fn a_skipped_field_leaves_the_others_as_they_were() {
    let fields = |skip: bool| {
        let mut home = vec![ty("cast", "String")];
        if skip {
            home.push(flag("skip"));
        }
        vec![
            field("id", vec![flag("primary_key")]),
            field("name", vec![]),
            field("home", home),
            field("age", vec![]),
        ]
    };
    let with = mini_query::derive(&record(vec![text("table_name", "t")], fields(false)))
        .unwrap();
    let skipped =
        mini_query::derive(&record(vec![text("table_name", "t")], fields(true)))
            .unwrap();
    let mut without_fields = fields(false);
    without_fields.remove(2);
    let without =
        mini_query::derive(&record(vec![text("table_name", "t")], without_fields))
            .unwrap();

    assert_eq!(with.field_names, vec!["name".to_string(), "home".to_string(), "age".to_string()]);
    assert_eq!(with.insert_query, "INSERT INTO t (name,home,age) VALUES ($1,$2,$3)");
    assert_eq!(skipped.field_names, vec!["name".to_string(), "age".to_string()]);
    assert_eq!(skipped.insert_query, "INSERT INTO t (name,age) VALUES ($1,$2)");
    assert_eq!(
        skipped.params,
        vec![binding("name", "name", None), binding("age", "age", None)]
    );
    assert_eq!(
        skipped.decode,
        vec![binding("id", "id", None), binding("name", "name", None), binding("age", "age", None)]
    );
    assert_eq!(skipped.all_query, with.all_query);
    assert_eq!(skipped.all_query, "SELECT * FROM t");
    assert_eq!(
        skipped.identity.as_ref().unwrap().update_query,
        "UPDATE t SET name=$2,age=$3 WHERE id=$1 RETURNING *"
    );
    assert_eq!(skipped, without);
}

#[test]
fn a_skipped_primary_key_is_still_the_identity() {
    let declared = record(
        vec![text("table_name", "t")],
        vec![field("id", vec![flag("skip"), flag("primary_key")]), field("a", vec![])],
    );
    let operations = mini_query::derive(&declared).unwrap();
    assert_eq!(operations.identity.unwrap().key, binding("id", "id", None));
    assert_eq!(operations.decode, vec![binding("id", "id", None), binding("a", "a", None)]);
    assert_eq!(operations.field_names, vec!["a".to_string()]);
}

#[test]
fn both_lookups_of_a_field_are_emitted() {
    let declared = record(
        vec![text("table_name", "t"), text("rename_all", "SCREAMING_SNAKE_CASE")],
        vec![
            field("firstName", vec![flag("find_by")]),
            field("lastName", vec![flag("find_by"), flag("get_by")]),
        ],
    );
    let operations = mini_query::derive(&declared).unwrap();
    assert_eq!(
        operations.lookups,
        vec![
            Lookup {
                kind: LookupKind::AtMostOne,
                method: "find_by_firstName".to_string(),
                field: "firstName".to_string(),
                query: "SELECT * FROM t WHERE FIRST_NAME = $1".to_string(),
            },
            Lookup {
                kind: LookupKind::Many,
                method: "get_by_lastName".to_string(),
                field: "lastName".to_string(),
                query: "SELECT * FROM t WHERE LAST_NAME = $1".to_string(),
            },
            Lookup {
                kind: LookupKind::AtMostOne,
                method: "find_by_lastName".to_string(),
                field: "lastName".to_string(),
                query: "SELECT * FROM t WHERE LAST_NAME = $1".to_string(),
            },
        ]
    );
}

#[test]
fn a_skipped_field_keeps_its_lookups() {
    let declared = record(
        vec![text("table_name", "t")],
        vec![field("a", vec![flag("skip"), flag("get_by"), text("rename", "b")])],
    );
    let operations = mini_query::derive(&declared).unwrap();
    assert_eq!(operations.field_names, Vec::<String>::new());
    assert_eq!(operations.decode, Vec::<Binding>::new());
    assert_eq!(operations.insert_query, "INSERT INTO t () VALUES ()");
    assert_eq!(operations.lookups.len(), 1);
    assert_eq!(operations.lookups[0].method, "get_by_a");
    assert_eq!(operations.lookups[0].query, "SELECT * FROM t WHERE b = $1");
}

#[test]
fn a_record_without_fields_has_only_its_table() {
    let operations =
        mini_query::derive(&record(vec![text("table_name", "t")], vec![])).unwrap();
    assert_eq!(
        operations,
        Operations {
            table_name: "t".to_string(),
            field_names: vec![],
            decode: vec![],
            params: vec![],
            all_query: "SELECT * FROM t".to_string(),
            insert_query: "INSERT INTO t () VALUES ()".to_string(),
            insert_query_returning: "INSERT INTO t () VALUES () RETURNING *".to_string(),
            lookups: vec![],
            identity: None,
        }
    );
}

#[test]
fn a_missing_table_name_stops_the_work() {
    let declared = record(vec![text("rename_all", "snake_case")], vec![field("a", vec![])]);
    assert_eq!(mini_query::derive(&declared), Err(ConfigError::MissingTableName));
    let bare = RecordDecl { annotations: vec![], fields: vec![] };
    assert_eq!(mini_query::derive(&bare), Err(ConfigError::MissingTableName));
}

#[test]
fn an_unknown_key_on_the_record_stops_the_work() {
    let declared = record(vec![text("table_name", "t"), flag("bogus")], vec![field("a", vec![])]);
    let refused = mini_query::derive(&declared);
    assert_eq!(refused, Err(ConfigError::UnknownKey { key: "bogus".to_string() }));
    assert_eq!(refused.unwrap_err().message(), "unknown attribute: bogus");
}

#[test]
fn an_unknown_key_on_a_field_stops_the_work() {
    let declared = record(
        vec![text("table_name", "t")],
        vec![field("a", vec![flag("get_by")]), field("b", vec![flag("bogus")])],
    );
    assert_eq!(
        mini_query::derive(&declared),
        Err(ConfigError::UnknownKey { key: "bogus".to_string() })
    );
}

#[test]
fn the_record_is_checked_before_its_fields() {
    let declared = record(vec![flag("bogus")], vec![field("a", vec![flag("worse")])]);
    assert_eq!(
        mini_query::derive(&declared),
        Err(ConfigError::UnknownKey { key: "bogus".to_string() })
    );
    let untabled = record(vec![], vec![field("a", vec![flag("worse")])]);
    assert_eq!(mini_query::derive(&untabled), Err(ConfigError::MissingTableName));
}

#[test]
fn an_unknown_style_stops_the_work() {
    let declared = record(
        vec![text("table_name", "t"), text("rename_all", "snake")],
        vec![field("a", vec![])],
    );
    assert_eq!(
        mini_query::derive(&declared),
        Err(ConfigError::UnknownCaseStyle { style: "snake".to_string() })
    );
}

#[test]
fn a_value_of_the_wrong_kind_stops_the_work() {
    let declared =
        record(vec![text("table_name", "t")], vec![field("a", vec![text("cast", "i16")])]);
    assert_eq!(
        mini_query::derive(&declared),
        Err(ConfigError::InvalidValue { key: "cast".to_string() })
    );
}

#[test]
fn a_malformed_annotation_stops_the_work() {
    let broken = Annotation { outer: true, name: "mini_query".to_string(), items: None };
    let declared = RecordDecl {
        annotations: vec![annotation(vec![text("table_name", "t")])],
        fields: vec![FieldDecl { name: "a".to_string(), annotations: vec![broken] }],
    };
    assert_eq!(
        mini_query::derive(&declared),
        Err(ConfigError::MalformedAnnotation { name: "mini_query".to_string() })
    );
}

#[test]
fn a_cast_goes_both_ways_through_the_same_type() {
    let operations = mini_query::derive(&people()).unwrap();
    let written = operations.params.iter().find(|binding| binding.field == "age").unwrap();
    let read = operations.decode.iter().find(|binding| binding.field == "age").unwrap();
    assert_eq!(written.cast_type, Some("i16".to_string()));
    assert_eq!(read.cast_type, written.cast_type);
    assert_eq!(read.column, written.column);
}

#[test]
fn operations_are_put_together_from_plans() {
    let plan = |name: &str, excluded: bool, is_primary_key: bool| FieldPlan {
        original_name: name.to_string(),
        column_name: name.to_uppercase(),
        excluded,
        is_primary_key,
        cast_type: None,
        generate_get_by: false,
        generate_find_by: is_primary_key,
    };
    let operations = synthesize(
        "t",
        &vec![plan("a", false, false), plan("b", true, false), plan("k", false, true)],
    );
    assert_eq!(operations.field_names, vec!["A".to_string()]);
    assert_eq!(operations.params, vec![binding("a", "A", None)]);
    assert_eq!(operations.decode, vec![binding("a", "A", None), binding("k", "K", None)]);
    assert_eq!(operations.lookups.len(), 1);
    assert_eq!(operations.lookups[0].method, "find_by_k");
    assert_eq!(operations.lookups[0].kind, LookupKind::AtMostOne);
    assert_eq!(operations.identity.unwrap().get_query, "SELECT * FROM t WHERE K = $1");
}

#[test]
fn bindings_and_lookups_are_made_from_a_plan() {
    let plan = FieldPlan {
        original_name: "fullName".to_string(),
        column_name: "full_name".to_string(),
        excluded: false,
        is_primary_key: false,
        cast_type: Some("String".to_string()),
        generate_get_by: true,
        generate_find_by: false,
    };
    assert_eq!(Binding::of(&plan), binding("fullName", "full_name", Some("String")));
    assert_eq!(
        Lookup::of("people", &plan, LookupKind::Many),
        Lookup {
            kind: LookupKind::Many,
            method: "get_by_fullName".to_string(),
            field: "fullName".to_string(),
            query: "SELECT * FROM people WHERE full_name = $1".to_string(),
        }
    );
    assert_eq!(Lookup::of("people", &plan, LookupKind::AtMostOne).method, "find_by_fullName");
}
