//! Reading annotations into typed options: the options of a record and the
//! options of a field.

use crate::naming::{case_from_str, resolve, resolved, style_named, CaseStyle};
use crate::options::{
    outcome, Annotation, AnnotationView, ConfigError, ConfigErrorView, ItemView, MetaItem,
    MetaValue, ValueView,
};
use crate::text::{clone_opt, opt_text, str_eq};
use vstd::prelude::*;

verus! {

/// What reading `items` one after another makes of `state`. The first option
/// that is refused decides the error; the options after it are not read.
pub open spec fn fold_items<S>(
    step: spec_fn(S, ItemView) -> Result<S, ConfigErrorView>,
    state: S,
    items: Seq<ItemView>,
) -> Result<S, ConfigErrorView>
    decreases items.len(),
{
    if items.len() == 0 {
        Ok(state)
    } else {
        match step(state, items[0]) {
            Ok(next) => fold_items(step, next, items.drop_first()),
            Err(e) => Err(e),
        }
    }
}

/// Whether a set of options reads this annotation: it stands before the item
/// and has the wanted name.
pub open spec fn concerns(name: Seq<char>, annotation: AnnotationView) -> bool {
    annotation.outer && annotation.name == name
}

/// What reading the annotations one after another makes of `state`.
/// Annotations that do not concern the reader are passed over unread.
pub open spec fn fold_annotations<S>(
    step: spec_fn(S, ItemView) -> Result<S, ConfigErrorView>,
    state: S,
    name: Seq<char>,
    annotations: Seq<AnnotationView>,
) -> Result<S, ConfigErrorView>
    decreases annotations.len(),
{
    if annotations.len() == 0 {
        Ok(state)
    } else if !concerns(name, annotations[0]) {
        fold_annotations(step, state, name, annotations.drop_first())
    } else {
        match annotations[0].items {
            None => Err(ConfigErrorView::MalformedAnnotation { name: annotations[0].name }),
            Some(items) => match fold_items(step, state, items) {
                Ok(next) => fold_annotations(step, next, name, annotations.drop_first()),
                Err(e) => Err(e),
            },
        }
    }
}

/// A set of options that is read from annotations, one option at a time.
pub trait ParseAttributes: Sized + View {
    /// The options before anything is read.
    spec fn initial(attribute: Seq<char>) -> Self::V;

    /// The rule for one option: from the options so far and the option, the
    /// options after it is read, or why it is refused. The rule is a function
    /// value, so that reading a list is defined once for every set of
    /// options.
    spec fn step() -> spec_fn(Self::V, ItemView) -> Result<Self::V, ConfigErrorView>;

    /// The options before anything is read, for annotations of the given
    /// name.
    fn default(attribute: &'static str) -> (fresh: Self)
        ensures
            fresh@ == Self::initial(attribute@),
    ;

    /// Reads one option. A refused option leaves the options as they were.
    fn parse_attribute(&mut self, m: &MetaItem) -> (done: Result<(), ConfigError>)
        ensures
            match (Self::step())(old(self)@, m@) {
                Ok(next) => done is Ok && final(self)@ == next,
                Err(e) => done matches Err(x) && x@ == e && final(self)@ == old(self)@,
            },
    ;

    /// Reads every option of every annotation that has the given name and
    /// stands before the item, in the order written. The result is `Ok`
    /// exactly if every such annotation is a list of options of which none
    /// is refused; otherwise it is the first error met.
    fn parse_attributes(attribute_name: &'static str, attributes: &[Annotation]) -> (read: Result<
        Self,
        ConfigError,
    >)
        ensures
            outcome(read) == fold_annotations(
                Self::step(),
                Self::initial(attribute_name@),
                attribute_name@,
                attributes.deep_view(),
            ),
    {
        let mut res = Self::default(attribute_name);
        let ghost all = attributes.deep_view();
        let ghost step = Self::step();
        let ghost start = Self::initial(attribute_name@);
        let mut i: usize = 0;
        assert(all.skip(0) =~= all);
        while i < attributes.len()
            invariant
                i <= attributes.len(),
                all == attributes.deep_view(),
                step == Self::step(),
                start == Self::initial(attribute_name@),
                fold_annotations(step, start, attribute_name@, all) == fold_annotations(
                    step,
                    res@,
                    attribute_name@,
                    all.skip(i as int),
                ),
            decreases attributes.len() - i,
        {
            let attribute = &attributes[i];
            let ghost rest = all.skip(i as int);
            assert(rest[0] == attribute@);
            assert(rest.drop_first() =~= all.skip(i as int + 1));
            if attribute.outer && str_eq(attribute.name.as_str(), attribute_name) {
                match &attribute.items {
                    None => {
                        return Err(
                            ConfigError::MalformedAnnotation { name: attribute.name.clone() },
                        );
                    },
                    Some(items) => {
                        let ghost list = items.deep_view();
                        let ghost before = res@;
                        let mut j: usize = 0;
                        assert(list.skip(0) =~= list);
                        while j < items.len()
                            invariant
                                j <= items.len(),
                                i < attributes.len(),
                                list == items.deep_view(),
                                step == Self::step(),
                                start == Self::initial(attribute_name@),
                                all == attributes.deep_view(),
                                rest == all.skip(i as int),
                                concerns(attribute_name@, rest[0]),
                                rest[0].items == Some(list),
                                fold_annotations(step, start, attribute_name@, all)
                                    == fold_annotations(step, before, attribute_name@, rest),
                                fold_items(step, before, list) == fold_items(
                                    step,
                                    res@,
                                    list.skip(j as int),
                                ),
                            decreases items.len() - j,
                        {
                            let ghost tail = list.skip(j as int);
                            assert(tail[0] == items@[j as int]@);
                            assert(tail.drop_first() =~= list.skip(j as int + 1));
                            match res.parse_attribute(&items[j]) {
                                Ok(_) => {},
                                Err(e) => {
                                    return Err(e);
                                },
                            }
                            j = j + 1;
                        }
                    },
                }
            }
            i = i + 1;
        }
        Ok(res)
    }
}

/// The options of a record, as a value of the model.
pub struct ContainerOptions {
    /// The name of the annotations that were read.
    pub attribute: Seq<char>,
    /// The rule for the names of fields that are not renamed one by one.
    pub rename_rule: Option<CaseStyle>,
    /// The table that the record is stored in.
    pub table_name: Option<Seq<char>>,
}

/// The rule by which a record's options read one option. `rename_all` wants
/// a string that names a case style, `table_name` wants a string; a key read
/// twice keeps the later value. Every other key is refused.
pub open spec fn container_step(state: ContainerOptions, item: ItemView) -> Result<
    ContainerOptions,
    ConfigErrorView,
> {
    if item.key == "rename_all"@ {
        match item.value {
            ValueView::Str(token) => match style_named(token) {
                Some(style) => Ok(ContainerOptions { rename_rule: Some(style), ..state }),
                None => Err(ConfigErrorView::UnknownCaseStyle { style: token }),
            },
            _ => Err(ConfigErrorView::InvalidValue { key: item.key }),
        }
    } else if item.key == "table_name"@ {
        match item.value {
            ValueView::Str(name) => Ok(ContainerOptions { table_name: Some(name), ..state }),
            _ => Err(ConfigErrorView::InvalidValue { key: item.key }),
        }
    } else {
        Err(ConfigErrorView::UnknownKey { key: item.key })
    }
}

/// The options of a record.
#[derive(Clone, Debug, Default)]
pub struct ContainerAttributes {
    attribute: &'static str,
    rename_all: Option<CaseStyle>,
    pub table_name: Option<String>,
}

impl View for ContainerAttributes {
    type V = ContainerOptions;

    closed spec fn view(&self) -> ContainerOptions {
        ContainerOptions {
            attribute: self.attribute@,
            rename_rule: self.rename_all,
            table_name: opt_text(self.table_name),
        }
    }
}

impl ContainerAttributes {
    /// The name that the record's rule gives a field: the field's own name
    /// where the record declares no rule.
    pub fn apply_to_field(&self, field: &str) -> (name: String)
        ensures
            name@ == resolved(field@, self@.rename_rule),
    {
        resolve(field, self.rename_all)
    }

    /// The name of the annotations that were read.
    pub fn attribute(&self) -> (name: &'static str)
        ensures
            name@ == self@.attribute,
    {
        self.attribute
    }

    /// The table that the record is stored in. A record without one cannot
    /// be worked on.
    pub fn table(&self) -> (name: Result<String, ConfigError>)
        ensures
            match self@.table_name {
                Some(table) => name matches Ok(text) && text@ == table,
                None => name matches Err(e) && e@ == ConfigErrorView::MissingTableName,
            },
    {
        match &self.table_name {
            Some(table) => Ok(table.clone()),
            None => Err(ConfigError::MissingTableName),
        }
    }
}

impl ParseAttributes for ContainerAttributes {
    open spec fn initial(attribute: Seq<char>) -> ContainerOptions {
        ContainerOptions { attribute, rename_rule: None, table_name: None }
    }

    open spec fn step() -> spec_fn(ContainerOptions, ItemView) -> Result<
        ContainerOptions,
        ConfigErrorView,
    > {
        |state: ContainerOptions, item: ItemView| container_step(state, item)
    }

    fn default(attribute: &'static str) -> (fresh: Self) {
        ContainerAttributes { attribute, rename_all: None, table_name: None }
    }

    fn parse_attribute(&mut self, m: &MetaItem) -> (done: Result<(), ConfigError>) {
        if str_eq(m.key.as_str(), "rename_all") {
            match &m.value {
                MetaValue::Str(token) => match case_from_str(token.as_str()) {
                    Some(style) => {
                        self.rename_all = Some(style);
                        Ok(())
                    },
                    None => Err(ConfigError::UnknownCaseStyle { style: token.clone() }),
                },
                _ => Err(ConfigError::InvalidValue { key: m.key.clone() }),
            }
        } else if str_eq(m.key.as_str(), "table_name") {
            match &m.value {
                MetaValue::Str(name) => {
                    self.table_name = Some(name.clone());
                    Ok(())
                },
                _ => Err(ConfigError::InvalidValue { key: m.key.clone() }),
            }
        } else {
            Err(ConfigError::UnknownKey { key: m.key.clone() })
        }
    }
}

/// The options of a field, as a value of the model.
pub struct FieldOptions {
    /// A column name for this field alone.
    pub rename: Option<Seq<char>>,
    /// The type through which the field's values pass on their way to and
    /// from the store.
    pub cast_type: Option<Seq<char>>,
    /// Whether the field identifies the record.
    pub is_primary_key: bool,
    /// Whether a lookup for many rows is wanted for this field.
    pub generate_get_by: bool,
    /// Whether a lookup for at most one row is wanted for this field.
    pub generate_find_by: bool,
    /// Whether the field is left out of the mapping.
    pub skip: bool,
}

/// The options of a field on which nothing is declared.
pub open spec fn no_field_options() -> FieldOptions {
    FieldOptions {
        rename: None,
        cast_type: None,
        is_primary_key: false,
        generate_get_by: false,
        generate_find_by: false,
        skip: false,
    }
}

/// What setting a flag makes of the options, if the option is a flag.
pub open spec fn flag_step(item: ItemView, set: FieldOptions) -> Result<
    FieldOptions,
    ConfigErrorView,
> {
    match item.value {
        ValueView::Flag => Ok(set),
        _ => Err(ConfigErrorView::InvalidValue { key: item.key }),
    }
}

/// The rule by which a field's options read one option. `rename` wants a
/// string and `cast` a type reference; `skip`, `primary_key`, `get_by` and
/// `find_by` are flags and take no value. A key read twice keeps the later
/// value. Every other key is refused.
pub open spec fn field_step(state: FieldOptions, item: ItemView) -> Result<
    FieldOptions,
    ConfigErrorView,
> {
    if item.key == "rename"@ {
        match item.value {
            ValueView::Str(name) => Ok(FieldOptions { rename: Some(name), ..state }),
            _ => Err(ConfigErrorView::InvalidValue { key: item.key }),
        }
    } else if item.key == "skip"@ {
        flag_step(item, FieldOptions { skip: true, ..state })
    } else if item.key == "cast"@ {
        match item.value {
            ValueView::TypeRef(ty) => Ok(FieldOptions { cast_type: Some(ty), ..state }),
            _ => Err(ConfigErrorView::InvalidValue { key: item.key }),
        }
    } else if item.key == "primary_key"@ {
        flag_step(item, FieldOptions { is_primary_key: true, ..state })
    } else if item.key == "get_by"@ {
        flag_step(item, FieldOptions { generate_get_by: true, ..state })
    } else if item.key == "find_by"@ {
        flag_step(item, FieldOptions { generate_find_by: true, ..state })
    } else {
        Err(ConfigErrorView::UnknownKey { key: item.key })
    }
}

/// The column name of a field, given the name that the record's rule gave
/// it: the rename where there is one, the given name otherwise.
pub open spec fn renamed(options: FieldOptions, field: Seq<char>) -> Seq<char> {
    match options.rename {
        Some(name) => name,
        None => field,
    }
}

/// The column name that a field's own options leave it with, given the name
/// that the record's rule gave it: none for a skipped field, the rename where
/// there is one, the given name otherwise.
pub open spec fn applied(options: FieldOptions, field: Seq<char>) -> Option<Seq<char>> {
    if options.skip {
        None
    } else {
        Some(renamed(options, field))
    }
}

/// The options of a field.
#[derive(Clone, Debug, Default)]
pub struct FieldAttribute {
    pub rename: Option<String>,
    pub cast: Option<String>,
    pub primary_key: bool,
    pub get_by: bool,
    pub find_by: bool,
    skip: bool,
}

impl View for FieldAttribute {
    type V = FieldOptions;

    closed spec fn view(&self) -> FieldOptions {
        FieldOptions {
            rename: opt_text(self.rename),
            cast_type: opt_text(self.cast),
            is_primary_key: self.primary_key,
            generate_get_by: self.get_by,
            generate_find_by: self.find_by,
            skip: self.skip,
        }
    }
}

impl FieldAttribute {
    /// Whether the field identifies the record.
    pub fn is_primary_key(&self) -> (yes: bool)
        ensures
            yes == self@.is_primary_key,
    {
        self.primary_key
    }

    /// Whether a lookup for many rows is wanted for this field.
    pub fn wants_get_by(&self) -> (yes: bool)
        ensures
            yes == self@.generate_get_by,
    {
        self.get_by
    }

    /// Whether a lookup for at most one row is wanted for this field.
    pub fn wants_find_by(&self) -> (yes: bool)
        ensures
            yes == self@.generate_find_by,
    {
        self.find_by
    }

    /// The type through which the field's values pass, if one is declared.
    pub fn cast_type(&self) -> (ty: Option<String>)
        ensures
            opt_text(ty) == self@.cast_type,
    {
        clone_opt(&self.cast)
    }

    /// Whether the field is left out of the mapping.
    pub fn skips(&self) -> (yes: bool)
        ensures
            yes == self@.skip,
    {
        self.skip
    }

    /// The column name of the field, given the name that the record's rule
    /// gave it: the rename where there is one, the given name otherwise.
    pub fn column_name(&self, field: &str) -> (name: String)
        ensures
            name@ == renamed(self@, field@),
    {
        match &self.rename {
            Some(rename) => rename.clone(),
            None => field.to_owned(),
        }
    }

    /// The column name that these options leave the field with, given the
    /// name that the record's rule gave it; `None` for a skipped field.
    pub fn apply_to_field(&self, field: &str) -> (name: Option<String>)
        ensures
            opt_text(name) == applied(self@, field@),
    {
        if self.skip {
            return None;
        }
        Some(self.column_name(field))
    }

    /// Accepts the option if it is a flag: a key without a value.
    fn flag(m: &MetaItem) -> (done: Result<(), ConfigError>)
        ensures
            match m@.value {
                ValueView::Flag => done is Ok,
                _ => done matches Err(e) && e@ == (ConfigErrorView::InvalidValue {
                    key: m@.key,
                }),
            },
    {
        match &m.value {
            MetaValue::Flag => Ok(()),
            _ => Err(ConfigError::InvalidValue { key: m.key.clone() }),
        }
    }
}

impl ParseAttributes for FieldAttribute {
    open spec fn initial(attribute: Seq<char>) -> FieldOptions {
        no_field_options()
    }

    open spec fn step() -> spec_fn(FieldOptions, ItemView) -> Result<
        FieldOptions,
        ConfigErrorView,
    > {
        |state: FieldOptions, item: ItemView| field_step(state, item)
    }

    fn default(_attribute: &'static str) -> (fresh: Self) {
        FieldAttribute {
            rename: None,
            cast: None,
            primary_key: false,
            get_by: false,
            find_by: false,
            skip: false,
        }
    }

    fn parse_attribute(&mut self, m: &MetaItem) -> (done: Result<(), ConfigError>) {
        if str_eq(m.key.as_str(), "rename") {
            match &m.value {
                MetaValue::Str(name) => {
                    self.rename = Some(name.clone());
                },
                _ => {
                    return Err(ConfigError::InvalidValue { key: m.key.clone() });
                },
            }
        } else if str_eq(m.key.as_str(), "skip") {
            Self::flag(m)?;
            self.skip = true;
        } else if str_eq(m.key.as_str(), "cast") {
            match &m.value {
                MetaValue::TypeRef(ty) => {
                    self.cast = Some(ty.clone());
                },
                _ => {
                    return Err(ConfigError::InvalidValue { key: m.key.clone() });
                },
            }
        } else if str_eq(m.key.as_str(), "primary_key") {
            Self::flag(m)?;
            self.primary_key = true;
        } else if str_eq(m.key.as_str(), "get_by") {
            Self::flag(m)?;
            self.get_by = true;
        } else if str_eq(m.key.as_str(), "find_by") {
            Self::flag(m)?;
            self.find_by = true;
        } else {
            return Err(ConfigError::UnknownKey { key: m.key.clone() });
        }
        Ok(())
    }
}

/// Whether a key is one that a record's options know.
pub open spec fn is_container_key(key: Seq<char>) -> bool {
    key == "rename_all"@ || key == "table_name"@
}

/// Whether a key is one that a field's options know.
pub open spec fn is_field_key(key: Seq<char>) -> bool {
    key == "rename"@ || key == "skip"@ || key == "cast"@ || key == "primary_key"@ || key
        == "get_by"@ || key == "find_by"@
}

/// A key that a record's options do not know is refused with an error that
/// names it, whatever was read before and whatever its value is; a key that
/// they know is never refused as unknown.
pub proof fn lemma_unknown_container_key(state: ContainerOptions, item: ItemView)
    ensures
        !is_container_key(item.key) ==> container_step(state, item) == Err::<
            ContainerOptions,
            ConfigErrorView,
        >(ConfigErrorView::UnknownKey { key: item.key }),
        is_container_key(item.key) ==> container_step(state, item) != Err::<
            ContainerOptions,
            ConfigErrorView,
        >(ConfigErrorView::UnknownKey { key: item.key }),
{
}

/// A key that a field's options do not know is refused with an error that
/// names it, whatever was read before and whatever its value is; a key that
/// they know is never refused as unknown.
pub proof fn lemma_unknown_field_key(state: FieldOptions, item: ItemView)
    ensures
        !is_field_key(item.key) ==> field_step(state, item) == Err::<
            FieldOptions,
            ConfigErrorView,
        >(ConfigErrorView::UnknownKey { key: item.key }),
        is_field_key(item.key) ==> field_step(state, item) != Err::<
            FieldOptions,
            ConfigErrorView,
        >(ConfigErrorView::UnknownKey { key: item.key }),
{
}

/// Reading a list of options is reading its first part and going on with
/// the second.
pub proof fn lemma_fold_items_split<S>(
    step: spec_fn(S, ItemView) -> Result<S, ConfigErrorView>,
    state: S,
    first: Seq<ItemView>,
    second: Seq<ItemView>,
)
    ensures
        fold_items(step, state, first + second) == match fold_items(step, state, first) {
            Ok(mid) => fold_items(step, mid, second),
            Err(e) => Err(e),
        },
    decreases first.len(),
{
    if first.len() == 0 {
        assert(first + second =~= second);
    } else {
        assert((first + second).drop_first() =~= first.drop_first() + second);
        assert((first + second)[0] == first[0]);
        match step(state, first[0]) {
            Ok(next) => {
                lemma_fold_items_split(step, next, first.drop_first(), second);
            },
            Err(e) => {},
        }
    }
}

/// Every option is validated: a list in which some option is refused,
/// whatever was read before it, is refused as a whole.
pub proof fn lemma_refused_item_fails<S>(
    step: spec_fn(S, ItemView) -> Result<S, ConfigErrorView>,
    state: S,
    items: Seq<ItemView>,
    i: int,
)
    requires
        0 <= i < items.len(),
        forall|s: S| (#[trigger] step(s, items[i])) is Err,
    ensures
        fold_items(step, state, items) is Err,
    decreases items.len(),
{
    if i == 0 {
    } else {
        match step(state, items[0]) {
            Ok(next) => {
                lemma_refused_item_fails(step, next, items.drop_first(), i - 1);
            },
            Err(e) => {},
        }
    }
}

/// The error of a list is that of the first option that is refused.
pub proof fn lemma_first_refused_item<S>(
    step: spec_fn(S, ItemView) -> Result<S, ConfigErrorView>,
    state: S,
    items: Seq<ItemView>,
    i: int,
)
    requires
        0 <= i < items.len(),
        fold_items(step, state, items.take(i)) is Ok,
    ensures
        step(fold_items(step, state, items.take(i))->Ok_0, items[i]) matches Err(e) ==> fold_items(
            step,
            state,
            items,
        ) == Err::<S, ConfigErrorView>(e),
{
    let first = items.take(i);
    let second = items.skip(i);
    assert(first + second =~= items);
    lemma_fold_items_split(step, state, first, second);
    assert(second[0] == items[i]);
}

/// The order of two neighbouring options with different keys does not
/// matter to what a field's options become: both orders are accepted or
/// both are refused, and where they are accepted the options are the same.
pub proof fn lemma_field_options_commute(
    state: FieldOptions,
    before: Seq<ItemView>,
    a: ItemView,
    b: ItemView,
    after: Seq<ItemView>,
)
    requires
        a.key != b.key,
    ensures
        ({
            let one = fold_items(FieldAttribute::step(), state, before + seq![a, b] + after);
            let other = fold_items(FieldAttribute::step(), state, before + seq![b, a] + after);
            &&& one is Ok <==> other is Ok
            &&& one is Ok ==> one == other
        }),
{
    let step = FieldAttribute::step();
    lemma_fold_items_split(step, state, before + seq![a, b], after);
    lemma_fold_items_split(step, state, before + seq![b, a], after);
    lemma_fold_items_split(step, state, before, seq![a, b]);
    lemma_fold_items_split(step, state, before, seq![b, a]);
    match fold_items(step, state, before) {
        Ok(mid) => {
            lemma_pair(step, mid, a, b);
            lemma_pair(step, mid, b, a);
        },
        Err(e) => {},
    }
}

/// The order of two neighbouring options with different keys does not
/// matter to what a record's options become.
pub proof fn lemma_container_options_commute(
    state: ContainerOptions,
    before: Seq<ItemView>,
    a: ItemView,
    b: ItemView,
    after: Seq<ItemView>,
)
    requires
        a.key != b.key,
    ensures
        ({
            let one = fold_items(ContainerAttributes::step(), state, before + seq![a, b] + after);
            let other = fold_items(
                ContainerAttributes::step(),
                state,
                before + seq![b, a] + after,
            );
            &&& one is Ok <==> other is Ok
            &&& one is Ok ==> one == other
        }),
{
    let step = ContainerAttributes::step();
    lemma_fold_items_split(step, state, before + seq![a, b], after);
    lemma_fold_items_split(step, state, before + seq![b, a], after);
    lemma_fold_items_split(step, state, before, seq![a, b]);
    lemma_fold_items_split(step, state, before, seq![b, a]);
    match fold_items(step, state, before) {
        Ok(mid) => {
            lemma_pair(step, mid, a, b);
            lemma_pair(step, mid, b, a);
        },
        Err(e) => {},
    }
}

/// Reading two options is reading the one and the other.
proof fn lemma_pair<S>(
    step: spec_fn(S, ItemView) -> Result<S, ConfigErrorView>,
    state: S,
    a: ItemView,
    b: ItemView,
)
    ensures
        fold_items(step, state, seq![a, b]) == match step(state, a) {
            Ok(mid) => step(mid, b),
            Err(e) => Err(e),
        },
{
    let both = seq![a, b];
    assert(both[0] == a);
    assert(both.drop_first() =~= seq![b]);
    assert(seq![b].drop_first() =~= Seq::<ItemView>::empty());
    reveal_with_fuel(fold_items, 3);
}

/// A list of annotations in which one that concerns the reader is refused,
/// whatever was read before it, is refused as a whole.
pub proof fn lemma_refused_annotation_fails<S>(
    step: spec_fn(S, ItemView) -> Result<S, ConfigErrorView>,
    state: S,
    name: Seq<char>,
    annotations: Seq<AnnotationView>,
    a: int,
)
    requires
        0 <= a < annotations.len(),
        concerns(name, annotations[a]),
        annotations[a].items matches Some(items) ==> forall|s: S|
            (#[trigger] fold_items(step, s, items)) is Err,
    ensures
        fold_annotations(step, state, name, annotations) is Err,
    decreases annotations.len(),
{
    if a == 0 {
    } else {
        let rest = annotations.drop_first();
        assert(rest[a - 1] == annotations[a]);
        if !concerns(name, annotations[0]) {
            lemma_refused_annotation_fails(step, state, name, rest, a - 1);
        } else {
            match annotations[0].items {
                None => {},
                Some(items) => match fold_items(step, state, items) {
                    Ok(next) => {
                        lemma_refused_annotation_fails(step, next, name, rest, a - 1);
                    },
                    Err(e) => {},
                },
            }
        }
    }
}

/// Reading options never changes the name of the annotations that a
/// record's options were made for.
pub proof fn lemma_attribute_kept(
    state: ContainerOptions,
    name: Seq<char>,
    annotations: Seq<AnnotationView>,
)
    ensures
        fold_annotations(ContainerAttributes::step(), state, name, annotations) matches Ok(read)
            ==> read.attribute == state.attribute,
    decreases annotations.len(),
{
    let step = ContainerAttributes::step();
    if annotations.len() == 0 {
    } else {
        let rest = annotations.drop_first();
        if !concerns(name, annotations[0]) {
            lemma_attribute_kept(state, name, rest);
        } else {
            match annotations[0].items {
                None => {},
                Some(items) => {
                    lemma_attribute_kept_by_items(state, items);
                    match fold_items(step, state, items) {
                        Ok(next) => {
                            lemma_attribute_kept(next, name, rest);
                        },
                        Err(e) => {},
                    }
                },
            }
        }
    }
}

/// Reading options never changes the name of the annotations that a
/// record's options were made for.
proof fn lemma_attribute_kept_by_items(state: ContainerOptions, items: Seq<ItemView>)
    ensures
        fold_items(ContainerAttributes::step(), state, items) matches Ok(read) ==> read.attribute
            == state.attribute,
    decreases items.len(),
{
    if items.len() == 0 {
    } else {
        match container_step(state, items[0]) {
            Ok(next) => {
                lemma_attribute_kept_by_items(next, items.drop_first());
            },
            Err(e) => {},
        }
    }
}

/// Reading a list of annotations is reading its first part and going on
/// with the second.
pub proof fn lemma_fold_annotations_split<S>(
    step: spec_fn(S, ItemView) -> Result<S, ConfigErrorView>,
    state: S,
    name: Seq<char>,
    first: Seq<AnnotationView>,
    second: Seq<AnnotationView>,
)
    ensures
        fold_annotations(step, state, name, first + second) == match fold_annotations(
            step,
            state,
            name,
            first,
        ) {
            Ok(mid) => fold_annotations(step, mid, name, second),
            Err(e) => Err(e),
        },
    decreases first.len(),
{
    if first.len() == 0 {
        assert(first + second =~= second);
    } else {
        assert((first + second).drop_first() =~= first.drop_first() + second);
        assert((first + second)[0] == first[0]);
        if !concerns(name, first[0]) {
            lemma_fold_annotations_split(step, state, name, first.drop_first(), second);
        } else {
            match first[0].items {
                None => {},
                Some(items) => match fold_items(step, state, items) {
                    Ok(next) => {
                        lemma_fold_annotations_split(step, next, name, first.drop_first(), second);
                    },
                    Err(e) => {},
                },
            }
        }
    }
}

/// The error of a list of annotations is that of the first option that is
/// refused: where the annotations before `a` are accepted, and in annotation
/// `a` the options before `i`, and option `i` is refused, its error is the
/// error of the whole list.
pub proof fn lemma_first_refused_option<S>(
    step: spec_fn(S, ItemView) -> Result<S, ConfigErrorView>,
    state: S,
    name: Seq<char>,
    annotations: Seq<AnnotationView>,
    a: int,
    i: int,
)
    requires
        0 <= a < annotations.len(),
        concerns(name, annotations[a]),
        annotations[a].items is Some,
        0 <= i < annotations[a].items->0.len(),
        fold_annotations(step, state, name, annotations.take(a)) is Ok,
        fold_items(
            step,
            fold_annotations(step, state, name, annotations.take(a))->Ok_0,
            annotations[a].items->0.take(i),
        ) is Ok,
    ensures
        ({
            let before = fold_annotations(step, state, name, annotations.take(a))->Ok_0;
            let so_far = fold_items(step, before, annotations[a].items->0.take(i))->Ok_0;
            step(so_far, annotations[a].items->0[i]) matches Err(e) ==> fold_annotations(
                step,
                state,
                name,
                annotations,
            ) == Err::<S, ConfigErrorView>(e)
        }),
{
    let first = annotations.take(a);
    let rest = annotations.skip(a);
    assert(first + rest =~= annotations);
    assert(rest[0] == annotations[a]);
    lemma_fold_annotations_split(step, state, name, first, rest);
    let before = fold_annotations(step, state, name, first)->Ok_0;
    lemma_first_refused_item(step, before, annotations[a].items->0, i);
}

} // verus!
