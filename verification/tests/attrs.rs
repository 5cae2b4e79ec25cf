use mini_query::attrs::{ContainerAttributes, FieldAttribute, ParseAttributes};
use mini_query::options::{Annotation, ConfigError, MetaItem, MetaValue};

fn flag(key: &str) -> MetaItem {
    MetaItem { key: key.to_string(), value: MetaValue::Flag }
}

fn text(key: &str, value: &str) -> MetaItem {
    MetaItem { key: key.to_string(), value: MetaValue::Str(value.to_string()) }
}

fn ty(key: &str, value: &str) -> MetaItem {
    MetaItem { key: key.to_string(), value: MetaValue::TypeRef(value.to_string()) }
}

fn annotation(items: Vec<MetaItem>) -> Annotation {
    Annotation { outer: true, name: "mini_query".to_string(), items: Some(items) }
}

fn container(items: Vec<MetaItem>) -> Result<ContainerAttributes, ConfigError> {
    ContainerAttributes::parse_attributes("mini_query", &[annotation(items)])
}

fn field(items: Vec<MetaItem>) -> Result<FieldAttribute, ConfigError> {
    FieldAttribute::parse_attributes("mini_query", &[annotation(items)])
}

#[test]
fn fresh_container_options_are_empty() {
    let options = <ContainerAttributes as ParseAttributes>::default("mini_query");
    assert_eq!(options.attribute(), "mini_query");
    assert_eq!(options.table_name, None);
    assert_eq!(options.apply_to_field("fullName"), "fullName");
    assert_eq!(options.table(), Err(ConfigError::MissingTableName));
}

#[test]
fn fresh_field_options_are_empty() {
    let options = <FieldAttribute as ParseAttributes>::default("mini_query");
    assert_eq!(options.rename, None);
    assert_eq!(options.cast, None);
    assert!(!options.primary_key);
    assert!(!options.get_by);
    assert!(!options.find_by);
    assert!(!options.skips());
    assert_eq!(options.apply_to_field("age"), Some("age".to_string()));
}

#[test]
fn container_reads_table_name_and_rule() {
    let options =
        container(vec![text("table_name", "people"), text("rename_all", "snake_case")]).unwrap();
    assert_eq!(options.table_name, Some("people".to_string()));
    assert_eq!(options.table(), Ok("people".to_string()));
    assert_eq!(options.apply_to_field("fullName"), "full_name");
    assert_eq!(options.attribute(), "mini_query");
}

#[test]
fn container_applies_every_rule() {
    let cases = vec![
        ("lowercase", "full name"),
        ("UPPERCASE", "FULL NAME"),
        ("PascalCase", "FullName"),
        ("camelCase", "fullName"),
        ("snake_case", "full_name"),
        ("SCREAMING_SNAKE_CASE", "FULL_NAME"),
        ("kebab-case", "full-name"),
        ("SCREAMING-KEBAB-CASE", "FULL-NAME"),
    ];
    for (rule, expected) in cases {
        let options = container(vec![text("rename_all", rule)]).unwrap();
        assert_eq!(options.apply_to_field("fullName"), expected, "{rule}");
    }
}

#[test]
fn container_refuses_an_unknown_key() {
    assert_eq!(
        container(vec![flag("bogus")]).err(),
        Some(ConfigError::UnknownKey { key: "bogus".to_string() })
    );
    assert_eq!(
        container(vec![text("table_name", "t"), text("rename", "x")]).err(),
        Some(ConfigError::UnknownKey { key: "rename".to_string() })
    );
    assert_eq!(
        container(vec![text("Table_Name", "t")]).err(),
        Some(ConfigError::UnknownKey { key: "Table_Name".to_string() })
    );
}

#[test]
fn container_refuses_an_unknown_style() {
    assert_eq!(
        container(vec![text("rename_all", "Snake")]).err(),
        Some(ConfigError::UnknownCaseStyle { style: "Snake".to_string() })
    );
}

#[test]
fn container_refuses_values_of_the_wrong_kind() {
    assert_eq!(
        container(vec![flag("table_name")]).err(),
        Some(ConfigError::InvalidValue { key: "table_name".to_string() })
    );
    assert_eq!(
        container(vec![ty("table_name", "people")]).err(),
        Some(ConfigError::InvalidValue { key: "table_name".to_string() })
    );
    assert_eq!(
        container(vec![flag("rename_all")]).err(),
        Some(ConfigError::InvalidValue { key: "rename_all".to_string() })
    );
    assert_eq!(
        container(vec![MetaItem { key: "rename_all".to_string(), value: MetaValue::Unreadable }])
            .err(),
        Some(ConfigError::InvalidValue { key: "rename_all".to_string() })
    );
}

#[test]
fn field_reads_every_key() {
    let options = field(vec![
        text("rename", "full_name"),
        ty("cast", "i16"),
        flag("primary_key"),
        flag("get_by"),
        flag("find_by"),
        flag("skip"),
    ])
    .unwrap();
    assert_eq!(options.rename, Some("full_name".to_string()));
    assert_eq!(options.cast, Some("i16".to_string()));
    assert_eq!(options.cast_type(), Some("i16".to_string()));
    assert!(options.primary_key && options.is_primary_key());
    assert!(options.get_by && options.wants_get_by());
    assert!(options.find_by && options.wants_find_by());
    assert!(options.skips());
}

#[test]
fn field_reads_one_key_at_a_time() {
    let only_get = field(vec![flag("get_by")]).unwrap();
    assert!(only_get.get_by);
    assert!(!only_get.find_by && !only_get.primary_key && !only_get.skips());
    assert_eq!(only_get.rename, None);
    assert_eq!(only_get.cast, None);

    let only_find = field(vec![flag("find_by")]).unwrap();
    assert!(only_find.find_by);
    assert!(!only_find.get_by && !only_find.primary_key && !only_find.skips());

    let only_key = field(vec![flag("primary_key")]).unwrap();
    assert!(only_key.primary_key);
    assert!(!only_key.get_by && !only_key.find_by && !only_key.skips());

    let only_skip = field(vec![flag("skip")]).unwrap();
    assert!(only_skip.skips());
    assert!(!only_skip.get_by && !only_skip.find_by && !only_skip.primary_key);
}

#[test]
fn field_refuses_an_unknown_key() {
    assert_eq!(
        field(vec![flag("bogus")]).err(),
        Some(ConfigError::UnknownKey { key: "bogus".to_string() })
    );
    assert_eq!(
        field(vec![text("table_name", "people")]).err(),
        Some(ConfigError::UnknownKey { key: "table_name".to_string() })
    );
}

#[test]
fn an_unknown_key_is_refused_wherever_it_stands() {
    let expected = Some(ConfigError::UnknownKey { key: "bogus".to_string() });
    assert_eq!(field(vec![flag("bogus"), flag("skip")]).err(), expected);
    assert_eq!(field(vec![flag("skip"), flag("bogus")]).err(), expected);
    assert_eq!(field(vec![flag("skip"), flag("bogus"), flag("get_by")]).err(), expected);
    assert_eq!(
        FieldAttribute::parse_attributes(
            "mini_query",
            &[annotation(vec![flag("skip")]), annotation(vec![flag("bogus")])]
        )
        .err(),
        expected
    );
}

#[test]
fn the_first_error_is_reported() {
    assert_eq!(
        field(vec![flag("rename"), flag("bogus")]).err(),
        Some(ConfigError::InvalidValue { key: "rename".to_string() })
    );
    assert_eq!(
        field(vec![flag("bogus"), flag("rename")]).err(),
        Some(ConfigError::UnknownKey { key: "bogus".to_string() })
    );
}

#[test]
fn field_refuses_values_of_the_wrong_kind() {
    let wrong = |item: MetaItem| {
        let key = item.key.clone();
        assert_eq!(field(vec![item]).err(), Some(ConfigError::InvalidValue { key }));
    };
    wrong(flag("rename"));
    wrong(ty("rename", "String"));
    wrong(flag("cast"));
    wrong(text("cast", "i16"));
    wrong(text("skip", "yes"));
    wrong(text("primary_key", "yes"));
    wrong(ty("get_by", "bool"));
    wrong(MetaItem { key: "find_by".to_string(), value: MetaValue::Unreadable });
    wrong(MetaItem { key: "cast".to_string(), value: MetaValue::Unreadable });
}

#[test]
fn a_refused_option_leaves_the_options_as_they_were() {
    let mut options = field(vec![text("rename", "a"), flag("get_by")]).unwrap();
    assert_eq!(
        options.parse_attribute(&flag("bogus")),
        Err(ConfigError::UnknownKey { key: "bogus".to_string() })
    );
    assert_eq!(
        options.parse_attribute(&flag("rename")),
        Err(ConfigError::InvalidValue { key: "rename".to_string() })
    );
    assert_eq!(options.rename, Some("a".to_string()));
    assert!(options.get_by);
    assert!(!options.skips());
    assert_eq!(options.parse_attribute(&flag("skip")), Ok(()));
    assert!(options.skips());
}

#[test]
fn a_later_value_replaces_an_earlier_one() {
    let options = field(vec![text("rename", "a"), text("rename", "b")]).unwrap();
    assert_eq!(options.rename, Some("b".to_string()));
    let record =
        container(vec![text("rename_all", "snake_case"), text("rename_all", "kebab-case")])
            .unwrap();
    assert_eq!(record.apply_to_field("fullName"), "full-name");
}

#[test]
fn the_order_of_different_keys_does_not_matter() {
    let one = field(vec![text("rename", "n"), flag("skip"), ty("cast", "i16")]).unwrap();
    let other = field(vec![ty("cast", "i16"), text("rename", "n"), flag("skip")]).unwrap();
    assert_eq!(one.rename, other.rename);
    assert_eq!(one.cast, other.cast);
    assert_eq!(one.skips(), other.skips());
    assert_eq!(one.primary_key, other.primary_key);

    let first = container(vec![text("table_name", "t"), text("rename_all", "UPPERCASE")]).unwrap();
    let second = container(vec![text("rename_all", "UPPERCASE"), text("table_name", "t")]).unwrap();
    assert_eq!(first.table_name, second.table_name);
    assert_eq!(first.apply_to_field("a_b"), second.apply_to_field("a_b"));
}

#[test]
fn options_of_several_annotations_add_up() {
    let options = FieldAttribute::parse_attributes(
        "mini_query",
        &[annotation(vec![text("rename", "n")]), annotation(vec![flag("get_by")])],
    )
    .unwrap();
    assert_eq!(options.rename, Some("n".to_string()));
    assert!(options.get_by);
}

#[test]
fn annotations_without_options_change_nothing() {
    let options = FieldAttribute::parse_attributes("mini_query", &[annotation(vec![])]).unwrap();
    assert_eq!(options.rename, None);
    assert!(!options.skips());
    let none = FieldAttribute::parse_attributes("mini_query", &[]).unwrap();
    assert_eq!(none.rename, None);
}

#[test]
fn annotations_of_another_name_are_not_read() {
    let other = Annotation {
        outer: true,
        name: "serde".to_string(),
        items: Some(vec![flag("bogus"), text("rename", "x")]),
    };
    let unreadable = Annotation { outer: true, name: "doc".to_string(), items: None };
    let options = FieldAttribute::parse_attributes(
        "mini_query",
        &[other, unreadable, annotation(vec![flag("skip")])],
    )
    .unwrap();
    assert_eq!(options.rename, None);
    assert!(options.skips());
}

#[test]
fn inner_annotations_are_not_read() {
    let inner = Annotation {
        outer: false,
        name: "mini_query".to_string(),
        items: Some(vec![flag("bogus")]),
    };
    let broken = Annotation { outer: false, name: "mini_query".to_string(), items: None };
    let options = FieldAttribute::parse_attributes("mini_query", &[inner, broken]).unwrap();
    assert!(!options.skips());
}

#[test]
fn an_annotation_that_is_no_list_is_refused() {
    let broken = Annotation { outer: true, name: "mini_query".to_string(), items: None };
    assert_eq!(
        FieldAttribute::parse_attributes("mini_query", &[broken.clone()]).err(),
        Some(ConfigError::MalformedAnnotation { name: "mini_query".to_string() })
    );
    assert_eq!(
        ContainerAttributes::parse_attributes("mini_query", &[broken]).err(),
        Some(ConfigError::MalformedAnnotation { name: "mini_query".to_string() })
    );
}

#[test]
fn the_annotation_name_is_the_one_asked_for() {
    let named = Annotation {
        outer: true,
        name: "other".to_string(),
        items: Some(vec![text("table_name", "t")]),
    };
    let read = ContainerAttributes::parse_attributes("other", &[named.clone()]).unwrap();
    assert_eq!(read.attribute(), "other");
    assert_eq!(read.table_name, Some("t".to_string()));
    let unread = ContainerAttributes::parse_attributes("mini_query", &[named]).unwrap();
    assert_eq!(unread.table_name, None);
}

#[test]
fn a_skipped_field_has_no_column() {
    let options = field(vec![flag("skip")]).unwrap();
    assert_eq!(options.apply_to_field("age"), None);
    let renamed = field(vec![flag("skip"), text("rename", "years")]).unwrap();
    assert_eq!(renamed.apply_to_field("age"), None);
    assert_eq!(renamed.column_name("age"), "years");
}

#[test]
fn a_rename_replaces_the_given_name() {
    let options = field(vec![text("rename", "years")]).unwrap();
    assert_eq!(options.apply_to_field("age"), Some("years".to_string()));
    assert_eq!(options.column_name("age"), "years");
    let plain = field(vec![flag("get_by")]).unwrap();
    assert_eq!(plain.apply_to_field("age"), Some("age".to_string()));
    assert_eq!(plain.column_name("age"), "age");
}

#[test]
fn a_rename_overrides_the_rule_of_the_record() {
    let record = container(vec![text("rename_all", "SCREAMING_SNAKE_CASE")]).unwrap();
    let renamed = field(vec![text("rename", "full_name")]).unwrap();
    let plain = field(vec![]).unwrap();
    let by_rule = record.apply_to_field("fullName");
    assert_eq!(by_rule, "FULL_NAME");
    assert_eq!(renamed.apply_to_field(&by_rule), Some("full_name".to_string()));
    assert_eq!(plain.apply_to_field(&by_rule), Some("FULL_NAME".to_string()));
}

#[test]
fn options_from_source_text_are_read() {
    let options = field(vec![
        MetaItem::from_source("rename", Some("\"full_name\"")),
        MetaItem::from_source("cast", Some("i16")),
        MetaItem::from_source("get_by", None),
    ])
    .unwrap();
    assert_eq!(options.rename, Some("full_name".to_string()));
    assert_eq!(options.cast, Some("i16".to_string()));
    assert!(options.get_by);
    assert_eq!(
        field(vec![MetaItem::from_source("rename", Some("full_name"))]).err(),
        Some(ConfigError::InvalidValue { key: "rename".to_string() })
    );
    assert_eq!(
        field(vec![MetaItem::from_source("cast", Some("\"i16\""))]).err(),
        Some(ConfigError::InvalidValue { key: "cast".to_string() })
    );
    assert_eq!(
        field(vec![MetaItem::from_source("cast", Some("1 + 1"))]).err(),
        Some(ConfigError::InvalidValue { key: "cast".to_string() })
    );
}

#[test]
fn default_options_declare_nothing() {
    let field = <FieldAttribute as Default>::default();
    assert_eq!(field.rename, None);
    assert_eq!(field.cast, None);
    assert!(!field.primary_key && !field.get_by && !field.find_by && !field.skips());
    assert_eq!(field.apply_to_field("age"), Some("age".to_string()));
    let record = <ContainerAttributes as Default>::default();
    assert_eq!(record.attribute(), "");
    assert_eq!(record.table_name, None);
    assert_eq!(record.apply_to_field("fullName"), "fullName");
}
