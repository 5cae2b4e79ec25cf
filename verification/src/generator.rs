//! From a record's declaration to the operations that are emitted for it.

use crate::attrs::FieldOptions;
use crate::naming::CaseStyle;
use crate::options::{Annotation, AnnotationView};
use crate::plan::{plan_of, FieldDecl, FieldDeclView, FieldPlan, PlanView};
use crate::query::{
    insert, insert_returning, insert_returning_text, insert_text, select_all, select_all_text,
    select_by_field, select_by_field_text, update_by_identity, update_text,
};
use crate::text::{clone_opt, opt_text, texts};
use vstd::prelude::*;
use vstd::string::*;

verus! {

/// A record as it is declared: its annotations and its fields in order.
#[derive(Clone, Debug, PartialEq, Eq)]
pub struct RecordDecl {
    pub annotations: Vec<Annotation>,
    pub fields: Vec<FieldDecl>,
}

/// The model of a [`RecordDecl`].
pub struct RecordView {
    pub annotations: Seq<AnnotationView>,
    pub fields: Seq<FieldDeclView>,
}

impl View for RecordDecl {
    type V = RecordView;

    open spec fn view(&self) -> RecordView {
        RecordView {
            annotations: self.annotations.deep_view(),
            fields: self.fields.deep_view(),
        }
    }
}

/// A field tied to its column: on the read path the column's value becomes
/// the field's value, on the write path the field's value is bound as a
/// parameter. Where `cast_type` is set the value passes through that type in
/// both directions.
#[derive(Clone, Debug, PartialEq, Eq)]
pub struct Binding {
    pub field: String,
    pub column: String,
    pub cast_type: Option<String>,
}

/// The model of a [`Binding`].
pub struct BindingView {
    pub field: Seq<char>,
    pub column: Seq<char>,
    pub cast_type: Option<Seq<char>>,
}

impl View for Binding {
    type V = BindingView;

    open spec fn view(&self) -> BindingView {
        BindingView {
            field: self.field@,
            column: self.column@,
            cast_type: opt_text(self.cast_type),
        }
    }
}

impl DeepView for Binding {
    type V = BindingView;

    open spec fn deep_view(&self) -> BindingView {
        self@
    }
}

/// How many rows a lookup hands back.
#[derive(Clone, Copy, PartialEq, Eq, Structural, Debug)]
pub enum LookupKind {
    /// Every matching row (`get_by_<field>`).
    Many,
    /// The matching row, if there is one (`find_by_<field>`).
    AtMostOne,
}

/// A lookup of rows by the value of one field.
#[derive(Clone, Debug, PartialEq, Eq)]
pub struct Lookup {
    pub kind: LookupKind,
    /// The name of the accessor: `get_by_` or `find_by_` and the field's name.
    pub method: String,
    /// The field whose value is looked for.
    pub field: String,
    /// The query; its one parameter is the value.
    pub query: String,
}

/// The model of a [`Lookup`].
pub struct LookupView {
    pub kind: LookupKind,
    pub method: Seq<char>,
    pub field: Seq<char>,
    pub query: Seq<char>,
}

impl View for Lookup {
    type V = LookupView;

    open spec fn view(&self) -> LookupView {
        LookupView {
            kind: self.kind,
            method: self.method@,
            field: self.field@,
            query: self.query@,
        }
    }
}

impl DeepView for Lookup {
    type V = LookupView;

    open spec fn deep_view(&self) -> LookupView {
        self@
    }
}

/// What a primary key adds: `get` and `quick_update`.
#[derive(Clone, Debug, PartialEq, Eq)]
pub struct Identity {
    /// The identity field and its column. In `quick_update` the field's
    /// value is bound through its cast type where it has one.
    pub key: Binding,
    /// The query of `get`; its one parameter is the identity.
    pub get_query: String,
    /// The query of `quick_update`; its first parameter is the identity, the
    /// insert's parameters follow.
    pub update_query: String,
}

/// The model of an [`Identity`].
pub struct IdentityView {
    pub key: BindingView,
    pub get_query: Seq<char>,
    pub update_query: Seq<char>,
}

impl View for Identity {
    type V = IdentityView;

    open spec fn view(&self) -> IdentityView {
        IdentityView {
            key: self.key@,
            get_query: self.get_query@,
            update_query: self.update_query@,
        }
    }
}

/// Everything that is emitted for one record.
#[derive(Clone, Debug, PartialEq, Eq)]
pub struct Operations {
    /// The table's name, also emitted as a constant.
    pub table_name: String,
    /// The column names in order, also emitted as a constant.
    pub field_names: Vec<String>,
    /// How a row becomes a record: one binding for each mapped field. Fields
    /// without a binding take the record's default value.
    pub decode: Vec<Binding>,
    /// The parameters of the insert, in the order of their placeholders.
    pub params: Vec<Binding>,
    /// The query of `all`.
    pub all_query: String,
    /// The query of `quick_insert_no_return`.
    pub insert_query: String,
    /// The query of `quick_insert`.
    pub insert_query_returning: String,
    /// The lookups by field, in the fields' order.
    pub lookups: Vec<Lookup>,
    /// `get` and `quick_update`, if the record has a primary key.
    pub identity: Option<Identity>,
}

/// The model of [`Operations`].
pub struct OperationsView {
    pub table_name: Seq<char>,
    pub field_names: Seq<Seq<char>>,
    pub decode: Seq<BindingView>,
    pub params: Seq<BindingView>,
    pub all_query: Seq<char>,
    pub insert_query: Seq<char>,
    pub insert_query_returning: Seq<char>,
    pub lookups: Seq<LookupView>,
    pub identity: Option<IdentityView>,
}

impl View for Operations {
    type V = OperationsView;

    open spec fn view(&self) -> OperationsView {
        OperationsView {
            table_name: self.table_name@,
            field_names: texts(self.field_names@),
            decode: self.decode.deep_view(),
            params: self.params.deep_view(),
            all_query: self.all_query@,
            insert_query: self.insert_query@,
            insert_query_returning: self.insert_query_returning@,
            lookups: self.lookups.deep_view(),
            identity: match self.identity {
                Some(identity) => Some(identity@),
                None => None,
            },
        }
    }
}

/// The plans of the fields that are columns of inserts and updates, in
/// order.
pub open spec fn data_plans(plans: Seq<PlanView>) -> Seq<PlanView>
    decreases plans.len(),
{
    if plans.len() == 0 {
        Seq::empty()
    } else if plans.last().is_data() {
        data_plans(plans.drop_last()).push(plans.last())
    } else {
        data_plans(plans.drop_last())
    }
}

/// The plans of the fields that are decoded from a row, in order: all but
/// the excluded ones.
pub open spec fn mapped_plans(plans: Seq<PlanView>) -> Seq<PlanView>
    decreases plans.len(),
{
    if plans.len() == 0 {
        Seq::empty()
    } else if !plans.last().excluded {
        mapped_plans(plans.drop_last()).push(plans.last())
    } else {
        mapped_plans(plans.drop_last())
    }
}

/// The column names of the plans.
pub open spec fn column_names(plans: Seq<PlanView>) -> Seq<Seq<char>> {
    Seq::new(plans.len(), |i: int| plans[i].column_name)
}

/// The binding of a planned field.
pub open spec fn binding_of(plan: PlanView) -> BindingView {
    BindingView {
        field: plan.original_name,
        column: plan.column_name,
        cast_type: plan.cast_type,
    }
}

/// The bindings of the plans.
pub open spec fn bindings(plans: Seq<PlanView>) -> Seq<BindingView> {
    Seq::new(plans.len(), |i: int| binding_of(plans[i]))
}

/// The plan of the identity field: the last field marked as primary key.
pub open spec fn identity_plan(plans: Seq<PlanView>) -> Option<PlanView>
    decreases plans.len(),
{
    if plans.len() == 0 {
        None
    } else if plans.last().is_primary_key {
        Some(plans.last())
    } else {
        identity_plan(plans.drop_last())
    }
}

/// The lookup of one kind for a field. It filters on the field's resolved
/// column name, also where the field is excluded from the mapping. The value
/// looked for is bound as it is given.
pub open spec fn lookup_of(table: Seq<char>, plan: PlanView, kind: LookupKind) -> LookupView {
    LookupView {
        kind,
        method: match kind {
            LookupKind::Many => "get_by_"@ + plan.original_name,
            LookupKind::AtMostOne => "find_by_"@ + plan.original_name,
        },
        field: plan.original_name,
        query: select_by_field_text(table, plan.column_name),
    }
}

/// The lookups asked for one field: the one for many rows first.
pub open spec fn lookups_for(table: Seq<char>, plan: PlanView) -> Seq<LookupView> {
    let many = if plan.generate_get_by {
        seq![lookup_of(table, plan, LookupKind::Many)]
    } else {
        Seq::empty()
    };
    let one = if plan.generate_find_by {
        seq![lookup_of(table, plan, LookupKind::AtMostOne)]
    } else {
        Seq::empty()
    };
    many + one
}

/// The lookups asked for all fields, in the fields' order.
pub open spec fn lookups_of(table: Seq<char>, plans: Seq<PlanView>) -> Seq<LookupView>
    decreases plans.len(),
{
    if plans.len() == 0 {
        Seq::empty()
    } else {
        lookups_of(table, plans.drop_last()) + lookups_for(table, plans.last())
    }
}

/// What a primary key adds, if there is one.
pub open spec fn identity_of(table: Seq<char>, plans: Seq<PlanView>) -> Option<IdentityView> {
    match identity_plan(plans) {
        None => None,
        Some(plan) => Some(
            IdentityView {
                key: binding_of(plan),
                get_query: select_by_field_text(table, plan.column_name),
                update_query: update_text(table, column_names(data_plans(plans))),
            },
        ),
    }
}

/// The operations for a table and the plans of its record's fields.
pub open spec fn operations_of(table: Seq<char>, plans: Seq<PlanView>) -> OperationsView {
    let columns = column_names(data_plans(plans));
    OperationsView {
        table_name: table,
        field_names: columns,
        decode: bindings(mapped_plans(plans)),
        params: bindings(data_plans(plans)),
        all_query: select_all_text(table),
        insert_query: insert_text(table, columns),
        insert_query_returning: insert_returning_text(table, columns),
        lookups: lookups_of(table, plans),
        identity: identity_of(table, plans),
    }
}

impl Binding {
    /// The binding of a planned field.
    pub fn of(plan: &FieldPlan) -> (binding: Binding)
        ensures
            binding@ == binding_of(plan@),
    {
        Binding {
            field: plan.original_name.clone(),
            column: plan.column_name.clone(),
            cast_type: clone_opt(&plan.cast_type),
        }
    }
}

impl Lookup {
    /// The lookup of one kind for a planned field.
    pub fn of(table: &str, plan: &FieldPlan, kind: LookupKind) -> (lookup: Lookup)
        ensures
            lookup@ == lookup_of(table@, plan@, kind),
    {
        let mut method = match kind {
            LookupKind::Many => "get_by_".to_owned(),
            LookupKind::AtMostOne => "find_by_".to_owned(),
        };
        method.append(plan.original_name.as_str());
        Lookup {
            kind,
            method,
            field: plan.original_name.clone(),
            query: select_by_field(table, plan.column_name.as_str()),
        }
    }
}

/// Puts together the operations for a table and the plans of its record's
/// fields.
pub fn synthesize(table: &str, plans: &Vec<FieldPlan>) -> (operations: Operations)
    ensures
        operations@ == operations_of(table@, plans.deep_view()),
{
    let ghost all = plans.deep_view();
    let mut field_names: Vec<String> = Vec::new();
    let mut decode: Vec<Binding> = Vec::new();
    let mut params: Vec<Binding> = Vec::new();
    let mut lookups: Vec<Lookup> = Vec::new();
    let mut key: Option<Binding> = None;
    let mut i: usize = 0;
    assert(texts(field_names@) =~= column_names(data_plans(all.take(0))));
    assert(decode.deep_view() =~= bindings(mapped_plans(all.take(0))));
    assert(params.deep_view() =~= bindings(data_plans(all.take(0))));
    assert(lookups.deep_view() =~= lookups_of(table@, all.take(0)));
    while i < plans.len()
        invariant
            i <= plans.len(),
            all == plans.deep_view(),
            texts(field_names@) == column_names(data_plans(all.take(i as int))),
            decode.deep_view() == bindings(mapped_plans(all.take(i as int))),
            params.deep_view() == bindings(data_plans(all.take(i as int))),
            lookups.deep_view() == lookups_of(table@, all.take(i as int)),
            match identity_plan(all.take(i as int)) {
                Some(plan) => key matches Some(binding) && binding@ == binding_of(plan),
                None => key is None,
            },
        decreases plans.len() - i,
    {
        let plan = &plans[i];
        let ghost upto = all.take(i as int + 1);
        let ghost before = all.take(i as int);
        assert(upto.drop_last() =~= before);
        assert(upto.last() == plan@);
        if plan.is_primary_key {
            key = Some(Binding::of(plan));
        }
        if !plan.excluded {
            let ghost old_decode = decode.deep_view();
            decode.push(Binding::of(plan));
            assert(decode.deep_view() =~= old_decode.push(binding_of(plan@)));
            assert(decode.deep_view() =~= bindings(mapped_plans(upto)));
            if !plan.is_primary_key {
                let ghost old_names = texts(field_names@);
                let ghost old_params = params.deep_view();
                field_names.push(plan.column_name.clone());
                params.push(Binding::of(plan));
                assert(texts(field_names@) =~= old_names.push(plan@.column_name));
                assert(params.deep_view() =~= old_params.push(binding_of(plan@)));
                assert(texts(field_names@) =~= column_names(data_plans(upto)));
                assert(params.deep_view() =~= bindings(data_plans(upto)));
            }
        }
        let ghost old_lookups = lookups.deep_view();
        if plan.generate_get_by {
            lookups.push(Lookup::of(table, plan, LookupKind::Many));
        }
        let ghost mid_lookups = lookups.deep_view();
        if plan.generate_find_by {
            lookups.push(Lookup::of(table, plan, LookupKind::AtMostOne));
        }
        assert(mid_lookups =~= old_lookups + if plan.generate_get_by {
            seq![lookup_of(table@, plan@, LookupKind::Many)]
        } else {
            Seq::empty()
        });
        assert(lookups.deep_view() =~= old_lookups + lookups_for(table@, plan@));
        i = i + 1;
    }
    assert(all.take(i as int) =~= all);
    let identity = match key {
        None => None,
        Some(key) => {
            let get_query = select_by_field(table, key.column.as_str());
            let update_query = update_by_identity(table, &field_names);
            Some(Identity { key, get_query, update_query })
        },
    };
    Operations {
        table_name: table.to_owned(),
        all_query: select_all(table),
        insert_query: insert(table, &field_names),
        insert_query_returning: insert_returning(table, &field_names),
        field_names,
        decode,
        params,
        lookups,
        identity,
    }
}

/// The data columns of two lists of plans, one after the other.
pub proof fn lemma_data_plans_add(first: Seq<PlanView>, second: Seq<PlanView>)
    ensures
        data_plans(first + second) == data_plans(first) + data_plans(second),
    decreases second.len(),
{
    if second.len() == 0 {
        assert(first + second =~= first);
        assert(data_plans(first) + data_plans(second) =~= data_plans(first));
    } else {
        assert((first + second).drop_last() =~= first + second.drop_last());
        assert((first + second).last() == second.last());
        lemma_data_plans_add(first, second.drop_last());
        assert(data_plans(first + second) =~= data_plans(first) + data_plans(second));
    }
}

/// The mapped fields of two lists of plans, one after the other.
pub proof fn lemma_mapped_plans_add(first: Seq<PlanView>, second: Seq<PlanView>)
    ensures
        mapped_plans(first + second) == mapped_plans(first) + mapped_plans(second),
    decreases second.len(),
{
    if second.len() == 0 {
        assert(first + second =~= first);
        assert(mapped_plans(first) + mapped_plans(second) =~= mapped_plans(first));
    } else {
        assert((first + second).drop_last() =~= first + second.drop_last());
        assert((first + second).last() == second.last());
        lemma_mapped_plans_add(first, second.drop_last());
        assert(mapped_plans(first + second) =~= mapped_plans(first) + mapped_plans(second));
    }
}

/// The lookups of two lists of plans, one after the other.
pub proof fn lemma_lookups_add(table: Seq<char>, first: Seq<PlanView>, second: Seq<PlanView>)
    ensures
        lookups_of(table, first + second) == lookups_of(table, first) + lookups_of(
            table,
            second,
        ),
    decreases second.len(),
{
    if second.len() == 0 {
        assert(first + second =~= first);
        assert(lookups_of(table, first) + lookups_of(table, second) =~= lookups_of(
            table,
            first,
        ));
    } else {
        assert((first + second).drop_last() =~= first + second.drop_last());
        assert((first + second).last() == second.last());
        lemma_lookups_add(table, first, second.drop_last());
        assert(lookups_of(table, first + second) =~= lookups_of(table, first) + lookups_of(
            table,
            second,
        ));
    }
}

/// The identity field of two lists of plans, one after the other: that of
/// the second list if it has one, else that of the first.
pub proof fn lemma_identity_plan_add(first: Seq<PlanView>, second: Seq<PlanView>)
    ensures
        identity_plan(first + second) == match identity_plan(second) {
            Some(plan) => Some(plan),
            None => identity_plan(first),
        },
    decreases second.len(),
{
    if second.len() == 0 {
        assert(first + second =~= first);
    } else {
        assert((first + second).drop_last() =~= first + second.drop_last());
        assert((first + second).last() == second.last());
        lemma_identity_plan_add(first, second.drop_last());
    }
}

/// Of several fields marked as primary key the last one is the identity
/// field, and it is the only one: a record has at most one `get` and one
/// `quick_update`.
pub proof fn lemma_last_primary_key_wins(table: Seq<char>, plans: Seq<PlanView>, last: int)
    requires
        0 <= last < plans.len(),
        plans[last].is_primary_key,
        forall|k: int| last < k < plans.len() ==> !(#[trigger] plans[k]).is_primary_key,
    ensures
        identity_plan(plans) == Some(plans[last]),
        operations_of(table, plans).identity matches Some(identity) && identity.key
            == binding_of(plans[last]),
    decreases plans.len(),
{
    if last == plans.len() - 1 {
    } else {
        lemma_last_primary_key_wins(table, plans.drop_last(), last);
    }
}

/// A record has an identity exactly if some field is marked as primary key.
pub proof fn lemma_identity_needs_primary_key(table: Seq<char>, plans: Seq<PlanView>)
    ensures
        operations_of(table, plans).identity is Some <==> exists|k: int|
            0 <= k < plans.len() && (#[trigger] plans[k]).is_primary_key,
    decreases plans.len(),
{
    if plans.len() == 0 {
    } else {
        lemma_identity_needs_primary_key(table, plans.drop_last());
        if plans.last().is_primary_key {
            assert(plans[plans.len() - 1].is_primary_key);
        } else if identity_plan(plans.drop_last()) is Some {
            let k = choose|k: int|
                0 <= k < plans.drop_last().len() && (#[trigger] plans.drop_last()[
                    k
                ]).is_primary_key;
            assert(plans[k].is_primary_key);
        } else {
            assert forall|k: int| 0 <= k < plans.len() implies !(#[trigger] plans[
                k
            ]).is_primary_key by {
                if k < plans.len() - 1 {
                    assert(plans.drop_last()[k] == plans[k]);
                }
            }
        }
    }
}

/// An excluded field leaves no trace in the column list, the insert, the
/// update and the decoding: they are what they are for the record without
/// the field. What the other fields contribute is unchanged, and so is the
/// query of `all`. Only the field's own lookups remain.
pub proof fn lemma_excluded_field_is_absent(table: Seq<char>, plans: Seq<PlanView>, i: int)
    requires
        0 <= i < plans.len(),
        plans[i].excluded,
        !plans[i].is_primary_key,
    ensures
        ({
            let with = operations_of(table, plans);
            let without = operations_of(table, plans.remove(i));
            &&& with.field_names == without.field_names
            &&& with.params == without.params
            &&& with.decode == without.decode
            &&& with.insert_query == without.insert_query
            &&& with.insert_query_returning == without.insert_query_returning
            &&& with.all_query == without.all_query
            &&& with.identity == without.identity
            &&& with.lookups == lookups_of(table, plans.take(i)) + lookups_for(table, plans[i])
                + lookups_of(table, plans.skip(i + 1))
            &&& without.lookups == lookups_of(table, plans.take(i)) + lookups_of(
                table,
                plans.skip(i + 1),
            )
        }),
{
    let first = plans.take(i);
    let one = seq![plans[i]];
    let rest = plans.skip(i + 1);
    assert(plans =~= first + one + rest);
    assert(plans.remove(i) =~= first + rest);
    let none = Seq::<PlanView>::empty();
    assert(one.drop_last() =~= none);
    assert(one.last() == plans[i]);
    assert(data_plans(none) =~= none);
    assert(mapped_plans(none) =~= none);
    assert(identity_plan(none) is None);
    assert(lookups_of(table, none) =~= Seq::<LookupView>::empty());
    assert(data_plans(one) =~= Seq::<PlanView>::empty());
    assert(mapped_plans(one) =~= Seq::<PlanView>::empty());
    assert(identity_plan(one) is None);
    assert(lookups_of(table, one) =~= lookups_for(table, plans[i]));
    lemma_data_plans_add(first, one);
    lemma_data_plans_add(first + one, rest);
    lemma_data_plans_add(first, rest);
    assert(data_plans(plans) =~= data_plans(plans.remove(i)));
    lemma_mapped_plans_add(first, one);
    lemma_mapped_plans_add(first + one, rest);
    lemma_mapped_plans_add(first, rest);
    assert(mapped_plans(plans) =~= mapped_plans(plans.remove(i)));
    lemma_identity_plan_add(first, one);
    lemma_identity_plan_add(first + one, rest);
    lemma_identity_plan_add(first, rest);
    lemma_lookups_add(table, first, one);
    lemma_lookups_add(table, first + one, rest);
    lemma_lookups_add(table, first, rest);
}

/// Skipping a field that is not the primary key takes it out of the column
/// list, the insert's parameters and the decoding, and leaves what the other
/// fields contribute as it was.
pub proof fn lemma_skip_removes_only_that_field(
    table: Seq<char>,
    rule: Option<CaseStyle>,
    plans: Seq<PlanView>,
    i: int,
    name: Seq<char>,
    options: FieldOptions,
)
    requires
        0 <= i < plans.len(),
        !options.is_primary_key,
        plans[i] == plan_of(name, rule, options),
    ensures
        ({
            let skipped = plans.update(
                i,
                plan_of(name, rule, FieldOptions { skip: true, ..options }),
            );
            let with = operations_of(table, skipped);
            let without = operations_of(table, plans.remove(i));
            &&& with.field_names == without.field_names
            &&& with.params == without.params
            &&& with.decode == without.decode
            &&& with.insert_query == without.insert_query
            &&& with.insert_query_returning == without.insert_query_returning
            &&& with.all_query == operations_of(table, plans).all_query
            &&& with.identity == without.identity
        }),
{
    let skipped = plans.update(i, plan_of(name, rule, FieldOptions { skip: true, ..options }));
    assert(skipped.remove(i) =~= plans.remove(i));
    lemma_excluded_field_is_absent(table, skipped, i);
}

/// Every column of inserts and updates belongs to a declared field that is
/// mapped and is not the primary key.
pub proof fn lemma_data_plans_members(plans: Seq<PlanView>, k: int)
    requires
        0 <= k < data_plans(plans).len(),
    ensures
        data_plans(plans)[k].is_data(),
        plans.contains(data_plans(plans)[k]),
    decreases plans.len(),
{
    if plans.len() == 0 {
    } else if plans.last().is_data() && k == data_plans(plans).len() - 1 {
        assert(plans[plans.len() - 1] == plans.last());
    } else {
        lemma_data_plans_members(plans.drop_last(), k);
        let found = choose|j: int|
            0 <= j < plans.drop_last().len() && plans.drop_last()[j] == data_plans(
                plans.drop_last(),
            )[k];
        assert(plans[found] == data_plans(plans)[k]);
    }
}

/// Every declared field that is mapped and is not the primary key is a
/// column of inserts and updates.
pub proof fn lemma_data_fields_are_columns(plans: Seq<PlanView>, j: int)
    requires
        0 <= j < plans.len(),
        plans[j].is_data(),
    ensures
        data_plans(plans).contains(plans[j]),
        column_names(data_plans(plans)).contains(plans[j].column_name),
    decreases plans.len(),
{
    if j == plans.len() - 1 {
        assert(data_plans(plans)[data_plans(plans).len() - 1] == plans[j]);
    } else {
        lemma_data_fields_are_columns(plans.drop_last(), j);
        let found = choose|k: int|
            0 <= k < data_plans(plans.drop_last()).len() && data_plans(plans.drop_last())[k]
                == plans.drop_last()[j];
        assert(data_plans(plans)[found] == plans[j]);
    }
    let at = choose|k: int| 0 <= k < data_plans(plans).len() && data_plans(plans)[k] == plans[j];
    assert(column_names(data_plans(plans))[at] == plans[j].column_name);
}

/// The insert has one parameter for each column of the column list, in the
/// same order: the parameter at position `n + 1` is the value of the field
/// whose column stands at index `n`.
pub proof fn lemma_params_match_columns(table: Seq<char>, plans: Seq<PlanView>)
    ensures
        ({
            let operations = operations_of(table, plans);
            &&& operations.params.len() == operations.field_names.len()
            &&& forall|n: int|
                0 <= n < operations.params.len() ==> (#[trigger] operations.params[n]).column
                    == operations.field_names[n]
        }),
{
}

/// Every value that is written is also read: a field that is a parameter of
/// the insert is decoded from the same column and, where it has a cast,
/// through the same type.
pub proof fn lemma_written_fields_are_read(table: Seq<char>, plans: Seq<PlanView>, n: int)
    requires
        0 <= n < operations_of(table, plans).params.len(),
    ensures
        operations_of(table, plans).decode.contains(operations_of(table, plans).params[n]),
{
    lemma_data_plans_are_mapped(plans, n);
    let found = choose|m: int|
        0 <= m < mapped_plans(plans).len() && mapped_plans(plans)[m] == data_plans(plans)[n];
    assert(bindings(mapped_plans(plans))[found] == bindings(data_plans(plans))[n]);
}

/// Every column of inserts and updates belongs to a mapped field.
proof fn lemma_data_plans_are_mapped(plans: Seq<PlanView>, n: int)
    requires
        0 <= n < data_plans(plans).len(),
    ensures
        mapped_plans(plans).contains(data_plans(plans)[n]),
    decreases plans.len(),
{
    if plans.len() == 0 {
    } else if plans.last().is_data() && n == data_plans(plans).len() - 1 {
        assert(mapped_plans(plans)[mapped_plans(plans).len() - 1] == plans.last());
    } else {
        lemma_data_plans_are_mapped(plans.drop_last(), n);
        let found = choose|m: int|
            0 <= m < mapped_plans(plans.drop_last()).len() && mapped_plans(plans.drop_last())[m]
                == data_plans(plans.drop_last())[n];
        assert(mapped_plans(plans)[found] == data_plans(plans)[n]);
    }
}

} // verus!
