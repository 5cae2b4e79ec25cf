//! Code generation engine for single-table data-access mappings.
//!
//! From the declaration of a record (its fields and the `mini_query`
//! annotations on it and on them) the engine works out a fixed set of
//! data-access operations for one table: decoding a row, selecting all rows,
//! inserting, updating and looking up by identity or by field. It produces
//! the text of each query and says which fields are bound to which columns;
//! running the queries is left to whoever emits the operations.
//!
//! The work is a pure function of the declaration. A declaration that is
//! wrong in any place gives a [`options::ConfigError`] and nothing else.

pub mod attrs;
pub mod generator;
pub mod naming;
pub mod options;
pub mod plan;
pub mod query;
pub mod text;

use crate::attrs::{
    concerns, fold_annotations, fold_items, is_container_key, is_field_key,
    lemma_attribute_kept, lemma_first_refused_option, lemma_refused_annotation_fails,
    lemma_refused_item_fails, lemma_unknown_container_key, lemma_unknown_field_key,
    no_field_options, ContainerAttributes, ContainerOptions, FieldAttribute, FieldOptions,
    ParseAttributes,
};
use crate::generator::{
    operations_of, synthesize, Operations, OperationsView, RecordDecl, RecordView,
};
use crate::options::{outcome, ConfigError, ConfigErrorView};
use crate::plan::{field_plans, lemma_first_error_stays, lemma_refused_field_fails, plan_fields};
use vstd::prelude::*;

verus! {

/// The options that a record declares in its `mini_query` annotations.
pub open spec fn record_options(record: RecordView) -> Result<ContainerOptions, ConfigErrorView> {
    fold_annotations(
        ContainerAttributes::step(),
        ContainerAttributes::initial("mini_query"@),
        "mini_query"@,
        record.annotations,
    )
}

/// What is emitted for a record: its operations, or the first configuration
/// error. The record's own annotations are read first, a missing table name
/// is noticed next, and the fields follow in order.
pub open spec fn derived(record: RecordView) -> Result<OperationsView, ConfigErrorView> {
    match record_options(record) {
        Err(e) => Err(e),
        Ok(options) => match options.table_name {
            None => Err(ConfigErrorView::MissingTableName),
            Some(table) => match field_plans(
                options.attribute,
                options.rename_rule,
                record.fields,
            ) {
                Err(e) => Err(e),
                Ok(plans) => Ok(operations_of(table, plans)),
            },
        },
    }
}

/// Works out what is emitted for a record. The result is the operations of
/// the record, or the first configuration error in its declaration; with an
/// error nothing is emitted.
pub fn derive(record: &RecordDecl) -> (emitted: Result<Operations, ConfigError>)
    ensures
        outcome(emitted) == derived(record@),
{
    let container = match ContainerAttributes::parse_attributes(
        "mini_query",
        record.annotations.as_slice(),
    ) {
        Ok(container) => container,
        Err(e) => {
            return Err(e);
        },
    };
    let table = match container.table() {
        Ok(table) => table,
        Err(e) => {
            return Err(e);
        },
    };
    match plan_fields(&container, record.fields.as_slice()) {
        Ok(plans) => Ok(synthesize(table.as_str(), &plans)),
        Err(e) => Err(e),
    }
}

/// A key that the record's options do not know, in any `mini_query`
/// annotation of the record, stops the work: nothing is emitted.
pub proof fn lemma_unknown_record_key_aborts(record: RecordView, a: int, i: int)
    requires
        0 <= a < record.annotations.len(),
        concerns("mini_query"@, record.annotations[a]),
        record.annotations[a].items is Some,
        0 <= i < record.annotations[a].items->0.len(),
        !is_container_key(record.annotations[a].items->0[i].key),
    ensures
        derived(record) is Err,
{
    let step = ContainerAttributes::step();
    let items = record.annotations[a].items->0;
    assert forall|s: ContainerOptions| (#[trigger] step(s, items[i])) is Err by {
        lemma_unknown_container_key(s, items[i]);
    }
    assert forall|s: ContainerOptions| (#[trigger] fold_items(step, s, items)) is Err by {
        lemma_refused_item_fails(step, s, items, i);
    }
    lemma_refused_annotation_fails(
        step,
        ContainerAttributes::initial("mini_query"@),
        "mini_query"@,
        record.annotations,
        a,
    );
}

/// A key that a field's options do not know, in any `mini_query` annotation
/// of any field, stops the work: nothing is emitted.
pub proof fn lemma_unknown_field_key_aborts(record: RecordView, f: int, a: int, i: int)
    requires
        0 <= f < record.fields.len(),
        0 <= a < record.fields[f].annotations.len(),
        concerns("mini_query"@, record.fields[f].annotations[a]),
        record.fields[f].annotations[a].items is Some,
        0 <= i < record.fields[f].annotations[a].items->0.len(),
        !is_field_key(record.fields[f].annotations[a].items->0[i].key),
    ensures
        derived(record) is Err,
{
    let step = FieldAttribute::step();
    let items = record.fields[f].annotations[a].items->0;
    assert forall|s: FieldOptions| (#[trigger] step(s, items[i])) is Err by {
        lemma_unknown_field_key(s, items[i]);
    }
    assert forall|s: FieldOptions| (#[trigger] fold_items(step, s, items)) is Err by {
        lemma_refused_item_fails(step, s, items, i);
    }
    lemma_refused_annotation_fails(
        step,
        no_field_options(),
        "mini_query"@,
        record.fields[f].annotations,
        a,
    );
    match record_options(record) {
        Err(e) => {},
        Ok(options) => {
            lemma_attribute_kept(
                ContainerAttributes::initial("mini_query"@),
                "mini_query"@,
                record.annotations,
            );
            lemma_refused_field_fails(options.attribute, options.rename_rule, record.fields, f);
        },
    }
}

/// The error names the unknown key: where everything that the record
/// declares before an unknown key is accepted, the work stops with the error
/// that names that key.
pub proof fn lemma_first_unknown_record_key_is_named(record: RecordView, a: int, i: int)
    requires
        0 <= a < record.annotations.len(),
        concerns("mini_query"@, record.annotations[a]),
        record.annotations[a].items is Some,
        0 <= i < record.annotations[a].items->0.len(),
        !is_container_key(record.annotations[a].items->0[i].key),
        fold_annotations(
            ContainerAttributes::step(),
            ContainerAttributes::initial("mini_query"@),
            "mini_query"@,
            record.annotations.take(a),
        ) is Ok,
        fold_items(
            ContainerAttributes::step(),
            fold_annotations(
                ContainerAttributes::step(),
                ContainerAttributes::initial("mini_query"@),
                "mini_query"@,
                record.annotations.take(a),
            )->Ok_0,
            record.annotations[a].items->0.take(i),
        ) is Ok,
    ensures
        derived(record) == Err::<OperationsView, ConfigErrorView>(
            ConfigErrorView::UnknownKey { key: record.annotations[a].items->0[i].key },
        ),
{
    let step = ContainerAttributes::step();
    let start = ContainerAttributes::initial("mini_query"@);
    let before = fold_annotations(step, start, "mini_query"@, record.annotations.take(a))->Ok_0;
    let items = record.annotations[a].items->0;
    let so_far = fold_items(step, before, items.take(i))->Ok_0;
    lemma_unknown_container_key(so_far, items[i]);
    lemma_first_refused_option(step, start, "mini_query"@, record.annotations, a, i);
}

/// The error names the unknown key: where the record's own declaration and
/// everything that its fields declare before an unknown key are accepted,
/// the work stops with the error that names that key.
pub proof fn lemma_first_unknown_field_key_is_named(record: RecordView, f: int, a: int, i: int)
    requires
        record_options(record) matches Ok(options) && options.table_name is Some,
        0 <= f < record.fields.len(),
        field_plans(
            "mini_query"@,
            record_options(record)->Ok_0.rename_rule,
            record.fields.take(f),
        ) is Ok,
        0 <= a < record.fields[f].annotations.len(),
        concerns("mini_query"@, record.fields[f].annotations[a]),
        record.fields[f].annotations[a].items is Some,
        0 <= i < record.fields[f].annotations[a].items->0.len(),
        !is_field_key(record.fields[f].annotations[a].items->0[i].key),
        fold_annotations(
            FieldAttribute::step(),
            no_field_options(),
            "mini_query"@,
            record.fields[f].annotations.take(a),
        ) is Ok,
        fold_items(
            FieldAttribute::step(),
            fold_annotations(
                FieldAttribute::step(),
                no_field_options(),
                "mini_query"@,
                record.fields[f].annotations.take(a),
            )->Ok_0,
            record.fields[f].annotations[a].items->0.take(i),
        ) is Ok,
    ensures
        derived(record) == Err::<OperationsView, ConfigErrorView>(
            ConfigErrorView::UnknownKey { key: record.fields[f].annotations[a].items->0[i].key },
        ),
{
    let step = FieldAttribute::step();
    let annotations = record.fields[f].annotations;
    let start = no_field_options();
    let before = fold_annotations(step, start, "mini_query"@, annotations.take(a))->Ok_0;
    let items = annotations[a].items->0;
    let so_far = fold_items(step, before, items.take(i))->Ok_0;
    lemma_unknown_field_key(so_far, items[i]);
    lemma_first_refused_option(step, no_field_options(), "mini_query"@, annotations, a, i);
    lemma_attribute_kept(
        ContainerAttributes::initial("mini_query"@),
        "mini_query"@,
        record.annotations,
    );
    let options = record_options(record)->Ok_0;
    let upto = record.fields.take(f + 1);
    assert(upto.drop_last() =~= record.fields.take(f));
    assert(upto.last() == record.fields[f]);
    lemma_first_error_stays("mini_query"@, options.rename_rule, record.fields, f + 1);
}

} // verus!
