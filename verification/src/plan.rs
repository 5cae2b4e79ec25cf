//! From declared fields to field plans: for each field its column name,
//! whether it is mapped, and what is asked for it.

use crate::attrs::{
    fold_annotations, no_field_options, ContainerAttributes, FieldAttribute, FieldOptions,
    ParseAttributes,
};
use crate::naming::{column_named, CaseStyle};
use crate::options::{Annotation, AnnotationView, ConfigError, ConfigErrorView};
use crate::text::opt_text;
use vstd::prelude::*;

verus! {

/// A field as the record declares it.
#[derive(Clone, Debug, PartialEq, Eq)]
pub struct FieldDecl {
    /// The field's name in the record.
    pub name: String,
    /// The annotations written on the field.
    pub annotations: Vec<Annotation>,
}

/// The model of a [`FieldDecl`].
pub struct FieldDeclView {
    pub name: Seq<char>,
    pub annotations: Seq<AnnotationView>,
}

impl View for FieldDecl {
    type V = FieldDeclView;

    open spec fn view(&self) -> FieldDeclView {
        FieldDeclView { name: self.name@, annotations: self.annotations.deep_view() }
    }
}

impl DeepView for FieldDecl {
    type V = FieldDeclView;

    open spec fn deep_view(&self) -> FieldDeclView {
        self@
    }
}

/// What is decided for one field.
#[derive(Clone, Debug, PartialEq, Eq)]
pub struct FieldPlan {
    /// The field's name in the record.
    pub original_name: String,
    /// The column name resolved for the field: its rename, else what the
    /// record's rule makes of its name, else its name.
    pub column_name: String,
    /// Whether the field is left out of the column list, of inserts and
    /// updates, and of decoding. A primary key is never left out.
    pub excluded: bool,
    /// Whether the field identifies the record.
    pub is_primary_key: bool,
    /// The type through which values pass when read and when written.
    pub cast_type: Option<String>,
    /// Whether a lookup for many rows is wanted.
    pub generate_get_by: bool,
    /// Whether a lookup for at most one row is wanted.
    pub generate_find_by: bool,
}

/// The model of a [`FieldPlan`].
pub struct PlanView {
    pub original_name: Seq<char>,
    pub column_name: Seq<char>,
    pub excluded: bool,
    pub is_primary_key: bool,
    pub cast_type: Option<Seq<char>>,
    pub generate_get_by: bool,
    pub generate_find_by: bool,
}

impl PlanView {
    /// The column that the field is mapped to; none for an excluded field.
    pub open spec fn resolved_column_name(self) -> Option<Seq<char>> {
        if self.excluded {
            None
        } else {
            Some(self.column_name)
        }
    }

    /// Whether the field is a column of inserts and updates: mapped, and
    /// not the primary key.
    pub open spec fn is_data(self) -> bool {
        !self.excluded && !self.is_primary_key
    }
}

impl View for FieldPlan {
    type V = PlanView;

    open spec fn view(&self) -> PlanView {
        PlanView {
            original_name: self.original_name@,
            column_name: self.column_name@,
            excluded: self.excluded,
            is_primary_key: self.is_primary_key,
            cast_type: opt_text(self.cast_type),
            generate_get_by: self.generate_get_by,
            generate_find_by: self.generate_find_by,
        }
    }
}

impl DeepView for FieldPlan {
    type V = PlanView;

    open spec fn deep_view(&self) -> PlanView {
        self@
    }
}

/// The plan of a field with the given name and options, in a record with the
/// given rule. `skip` excludes the field unless it is the primary key.
pub open spec fn plan_of(
    name: Seq<char>,
    rule: Option<CaseStyle>,
    options: FieldOptions,
) -> PlanView {
    PlanView {
        original_name: name,
        column_name: column_named(name, rule, options.rename),
        excluded: options.skip && !options.is_primary_key,
        is_primary_key: options.is_primary_key,
        cast_type: options.cast_type,
        generate_get_by: options.generate_get_by,
        generate_find_by: options.generate_find_by,
    }
}

impl FieldPlan {
    /// Plans one field from its name, the record's options and its own.
    pub fn build(name: &str, container: &ContainerAttributes, options: &FieldAttribute) -> (plan:
        FieldPlan)
        ensures
            plan@ == plan_of(name@, container@.rename_rule, options@),
    {
        let by_rule = container.apply_to_field(name);
        let is_primary_key = options.is_primary_key();
        FieldPlan {
            original_name: name.to_owned(),
            column_name: options.column_name(by_rule.as_str()),
            excluded: options.skips() && !is_primary_key,
            is_primary_key,
            cast_type: options.cast_type(),
            generate_get_by: options.wants_get_by(),
            generate_find_by: options.wants_find_by(),
        }
    }

    /// The column that the field is mapped to; `None` for an excluded field.
    pub fn resolved_column_name(&self) -> (column: Option<String>)
        ensures
            opt_text(column) == self@.resolved_column_name(),
    {
        if self.excluded {
            None
        } else {
            Some(self.column_name.clone())
        }
    }
}

/// The options that a field declares in annotations of the given name.
pub open spec fn field_options(attribute: Seq<char>, field: FieldDeclView) -> Result<
    FieldOptions,
    ConfigErrorView,
> {
    fold_annotations(
        FieldAttribute::step(),
        no_field_options(),
        attribute,
        field.annotations,
    )
}

/// The plans of the fields in the order declared, or the error of the first
/// field whose annotations are refused.
pub open spec fn field_plans(
    attribute: Seq<char>,
    rule: Option<CaseStyle>,
    fields: Seq<FieldDeclView>,
) -> Result<Seq<PlanView>, ConfigErrorView>
    decreases fields.len(),
{
    if fields.len() == 0 {
        Ok(Seq::empty())
    } else {
        match field_plans(attribute, rule, fields.drop_last()) {
            Err(e) => Err(e),
            Ok(plans) => match field_options(attribute, fields.last()) {
                Err(e) => Err(e),
                Ok(options) => Ok(plans.push(plan_of(fields.last().name, rule, options))),
            },
        }
    }
}

/// The model of the result of planning.
pub open spec fn plans_outcome(r: Result<Vec<FieldPlan>, ConfigError>) -> Result<
    Seq<PlanView>,
    ConfigErrorView,
> {
    match r {
        Ok(plans) => Ok(plans.deep_view()),
        Err(e) => Err(e@),
    }
}

/// Plans every field of a record, in the order declared. Fails with the
/// first error that a field's annotations raise.
pub fn plan_fields(container: &ContainerAttributes, fields: &[FieldDecl]) -> (planned: Result<
    Vec<FieldPlan>,
    ConfigError,
>)
    ensures
        plans_outcome(planned) == field_plans(
            container@.attribute,
            container@.rename_rule,
            fields.deep_view(),
        ),
{
    let attribute = container.attribute();
    let ghost all = fields.deep_view();
    let ghost rule = container@.rename_rule;
    let mut plans: Vec<FieldPlan> = Vec::new();
    let mut i: usize = 0;
    assert(plans.deep_view() =~= Seq::empty());
    while i < fields.len()
        invariant
            i <= fields.len(),
            all == fields.deep_view(),
            rule == container@.rename_rule,
            attribute@ == container@.attribute,
            field_plans(attribute@, rule, all.take(i as int)) == Ok::<
                Seq<PlanView>,
                ConfigErrorView,
            >(plans.deep_view()),
        decreases fields.len() - i,
    {
        let field = &fields[i];
        let ghost upto = all.take(i as int + 1);
        assert(upto.drop_last() =~= all.take(i as int));
        assert(upto.last() == field@);
        match FieldAttribute::parse_attributes(attribute, field.annotations.as_slice()) {
            Err(e) => {
                proof {
                    lemma_first_error_stays(attribute@, rule, all, i as int + 1);
                }
                return Err(e);
            },
            Ok(options) => {
                let ghost before = plans.deep_view();
                plans.push(FieldPlan::build(field.name.as_str(), container, &options));
                assert(plans.deep_view() =~= before.push(
                    plan_of(field@.name, rule, options@),
                ));
            },
        }
        i = i + 1;
    }
    assert(all.take(i as int) =~= all);
    Ok(plans)
}

/// Once the first `n` fields raise an error, the whole list raises the same
/// error.
pub proof fn lemma_first_error_stays(
    attribute: Seq<char>,
    rule: Option<CaseStyle>,
    fields: Seq<FieldDeclView>,
    n: int,
)
    requires
        0 <= n <= fields.len(),
        field_plans(attribute, rule, fields.take(n)) is Err,
    ensures
        field_plans(attribute, rule, fields) == field_plans(attribute, rule, fields.take(n)),
    decreases fields.len() - n,
{
    if n == fields.len() {
        assert(fields.take(n) =~= fields);
    } else {
        let longer = fields.take(n + 1);
        assert(longer.drop_last() =~= fields.take(n));
        lemma_first_error_stays(attribute, rule, fields, n + 1);
    }
}

/// An explicit rename is the field's column name, whatever the record's
/// rule is and whatever else is declared on the field.
pub proof fn lemma_rename_wins(
    name: Seq<char>,
    rule: Option<CaseStyle>,
    options: FieldOptions,
    rename: Seq<char>,
)
    requires
        options.rename == Some(rename),
    ensures
        plan_of(name, rule, options).column_name == rename,
        !plan_of(name, rule, options).excluded ==> plan_of(
            name,
            rule,
            options,
        ).resolved_column_name() == Some(rename),
{
}

/// Skipping a field that is not the primary key excludes it and changes
/// nothing else of its plan; skipping the primary key changes nothing.
pub proof fn lemma_skip_excludes(name: Seq<char>, rule: Option<CaseStyle>, options: FieldOptions)
    ensures
        ({
            let plain = plan_of(name, rule, options);
            let skipped = plan_of(name, rule, FieldOptions { skip: true, ..options });
            &&& !options.is_primary_key ==> skipped == PlanView { excluded: true, ..plain }
            &&& !options.is_primary_key ==> skipped.resolved_column_name() is None
            &&& options.is_primary_key ==> skipped == plain && !skipped.excluded
        }),
{
}

/// A list of fields in which one field's annotations are refused is refused
/// as a whole.
pub proof fn lemma_refused_field_fails(
    attribute: Seq<char>,
    rule: Option<CaseStyle>,
    fields: Seq<FieldDeclView>,
    f: int,
)
    requires
        0 <= f < fields.len(),
        field_options(attribute, fields[f]) is Err,
    ensures
        field_plans(attribute, rule, fields) is Err,
    decreases fields.len(),
{
    if f == fields.len() - 1 {
    } else {
        assert(fields.drop_last()[f] == fields[f]);
        lemma_refused_field_fails(attribute, rule, fields.drop_last(), f);
    }
}

/// There is one plan for each declared field, in the order declared, under
/// the field's own name.
pub proof fn lemma_plans_follow_declaration(
    attribute: Seq<char>,
    rule: Option<CaseStyle>,
    fields: Seq<FieldDeclView>,
)
    requires
        field_plans(attribute, rule, fields) is Ok,
    ensures
        ({
            let plans = field_plans(attribute, rule, fields)->Ok_0;
            &&& plans.len() == fields.len()
            &&& forall|i: int|
                0 <= i < fields.len() ==> field_options(attribute, #[trigger] fields[i]) is Ok
                    && plans[i] == plan_of(
                    fields[i].name,
                    rule,
                    field_options(attribute, fields[i])->Ok_0,
                )
        }),
    decreases fields.len(),
{
    if fields.len() == 0 {
    } else {
        lemma_plans_follow_declaration(attribute, rule, fields.drop_last());
        let plans = field_plans(attribute, rule, fields)->Ok_0;
        let before = field_plans(attribute, rule, fields.drop_last())->Ok_0;
        assert forall|i: int| 0 <= i < fields.len() implies field_options(
            attribute,
            #[trigger] fields[i],
        ) is Ok && plans[i] == plan_of(
            fields[i].name,
            rule,
            field_options(attribute, fields[i])->Ok_0,
        ) by {
            if i < fields.len() - 1 {
                assert(fields.drop_last()[i] == fields[i]);
                assert(plans[i] == before[i]);
            }
        }
    }
}

} // verus!
