//! What a declaration says: annotations, their options, and the errors that
//! a wrong declaration raises.
//!
//! An annotation is a named list of options. An option is a key, alone (a
//! flag) or with a value that is a string or a type reference.

use crate::text::opt_text;
use vstd::prelude::*;
use vstd::string::*;

verus! {

/// The value of one option.
#[derive(Clone, Debug, PartialEq, Eq)]
pub enum MetaValue {
    /// No value: the key stands alone.
    Flag,
    /// A string, already without its quotes and escapes.
    Str(String),
    /// A type reference, as source text.
    TypeRef(String),
    /// Something that is neither a string nor a type reference.
    Unreadable,
}

/// The model of a [`MetaValue`].
pub enum ValueView {
    Flag,
    Str(Seq<char>),
    TypeRef(Seq<char>),
    Unreadable,
}

impl View for MetaValue {
    type V = ValueView;

    open spec fn view(&self) -> ValueView {
        match *self {
            MetaValue::Flag => ValueView::Flag,
            MetaValue::Str(s) => ValueView::Str(s@),
            MetaValue::TypeRef(t) => ValueView::TypeRef(t@),
            MetaValue::Unreadable => ValueView::Unreadable,
        }
    }
}

/// One option of an annotation: `key` or `key = value`.
#[derive(Clone, Debug, PartialEq, Eq)]
pub struct MetaItem {
    pub key: String,
    pub value: MetaValue,
}

/// The model of a [`MetaItem`].
pub struct ItemView {
    pub key: Seq<char>,
    pub value: ValueView,
}

impl View for MetaItem {
    type V = ItemView;

    open spec fn view(&self) -> ItemView {
        ItemView { key: self.key@, value: self.value@ }
    }
}

impl DeepView for MetaItem {
    type V = ItemView;

    open spec fn deep_view(&self) -> ItemView {
        self@
    }
}

/// One annotation on a record or on a field.
#[derive(Clone, Debug, PartialEq, Eq)]
pub struct Annotation {
    /// Whether the annotation stands before the item (not inside it).
    pub outer: bool,
    /// The annotation's name, such as `mini_query`.
    pub name: String,
    /// Its options in the order written; `None` where what follows the name
    /// is not a list of options.
    pub items: Option<Vec<MetaItem>>,
}

/// The model of an [`Annotation`].
pub struct AnnotationView {
    pub outer: bool,
    pub name: Seq<char>,
    pub items: Option<Seq<ItemView>>,
}

impl View for Annotation {
    type V = AnnotationView;

    open spec fn view(&self) -> AnnotationView {
        AnnotationView {
            outer: self.outer,
            name: self.name@,
            items: match self.items {
                Some(items) => Some(items.deep_view()),
                None => None,
            },
        }
    }
}

impl DeepView for Annotation {
    type V = AnnotationView;

    open spec fn deep_view(&self) -> AnnotationView {
        self@
    }
}

/// Why a declaration cannot be used. Any of these stops the work on the
/// whole record.
#[derive(Clone, Debug, PartialEq, Eq)]
pub enum ConfigError {
    /// The key is not one that this kind of declaration knows.
    UnknownKey { key: String },
    /// The key is known, but its value is missing, unwanted or of the wrong
    /// kind.
    InvalidValue { key: String },
    /// `rename_all` names no case style.
    UnknownCaseStyle { style: String },
    /// What follows the annotation's name is not a list of options.
    MalformedAnnotation { name: String },
    /// The record names no table.
    MissingTableName,
}

/// The model of a [`ConfigError`].
pub enum ConfigErrorView {
    UnknownKey { key: Seq<char> },
    InvalidValue { key: Seq<char> },
    UnknownCaseStyle { style: Seq<char> },
    MalformedAnnotation { name: Seq<char> },
    MissingTableName,
}

impl View for ConfigError {
    type V = ConfigErrorView;

    open spec fn view(&self) -> ConfigErrorView {
        match *self {
            ConfigError::UnknownKey { key } => ConfigErrorView::UnknownKey { key: key@ },
            ConfigError::InvalidValue { key } => ConfigErrorView::InvalidValue { key: key@ },
            ConfigError::UnknownCaseStyle { style } => ConfigErrorView::UnknownCaseStyle {
                style: style@,
            },
            ConfigError::MalformedAnnotation { name } => ConfigErrorView::MalformedAnnotation {
                name: name@,
            },
            ConfigError::MissingTableName => ConfigErrorView::MissingTableName,
        }
    }
}

/// The text of an error.
pub open spec fn error_text(e: ConfigErrorView) -> Seq<char> {
    match e {
        ConfigErrorView::UnknownKey { key } => "unknown attribute: "@ + key,
        ConfigErrorView::InvalidValue { key } => "invalid value for attribute: "@ + key,
        ConfigErrorView::UnknownCaseStyle { style } => "unable to parse rename_all rule: "@
            + style,
        ConfigErrorView::MalformedAnnotation { name } => "expected a list of options in: "@
            + name,
        ConfigErrorView::MissingTableName => "Expected table_name attr."@,
    }
}

impl ConfigError {
    /// The error as a sentence for the user. It names the key, the style or
    /// the annotation that is at fault.
    pub fn message(&self) -> (text: String)
        ensures
            text@ == error_text(self@),
    {
        match self {
            ConfigError::UnknownKey { key } => {
                let mut text = "unknown attribute: ".to_owned();
                text.append(key.as_str());
                text
            },
            ConfigError::InvalidValue { key } => {
                let mut text = "invalid value for attribute: ".to_owned();
                text.append(key.as_str());
                text
            },
            ConfigError::UnknownCaseStyle { style } => {
                let mut text = "unable to parse rename_all rule: ".to_owned();
                text.append(style.as_str());
                text
            },
            ConfigError::MalformedAnnotation { name } => {
                let mut text = "expected a list of options in: ".to_owned();
                text.append(name.as_str());
                text
            },
            ConfigError::MissingTableName => "Expected table_name attr.".to_owned(),
        }
    }
}

/// The model of a result whose success has a model.
pub open spec fn outcome<T: View>(r: Result<T, ConfigError>) -> Result<T::V, ConfigErrorView> {
    match r {
        Ok(value) => Ok(value@),
        Err(e) => Err(e@),
    }
}

/// What a string literal spells, for a source text that is one string
/// literal; `None` for any other text. Reading literals is left to `syn`;
/// this is only the name of its answer in contracts.
pub uninterp spec fn literal_text(source: Seq<char>) -> Option<Seq<char>>;

/// Whether a source text is one type, as `syn` reads types. This is only the
/// name of its answer in contracts.
pub uninterp spec fn spells_type(source: Seq<char>) -> bool;

/// Calls `syn::parse_str` for a `syn::LitStr` and, where that succeeds,
/// `LitStr::value` on the literal. The contract claims that the answer
/// depends on the source text alone; `literal_text` names it.
#[verifier::external_body]
fn read_literal(source: &str) -> (value: Option<String>)
    ensures
        opt_text(value) == literal_text(source@),
{
    match syn::parse_str::<syn::LitStr>(source) {
        Ok(literal) => Some(literal.value()),
        Err(_) => None,
    }
}

/// Calls `syn::parse_str` for a `syn::Type` and says whether it succeeded.
/// The contract claims that the answer depends on the source text alone;
/// `spells_type` names it.
#[verifier::external_body]
fn reads_as_type(source: &str) -> (yes: bool)
    ensures
        yes == spells_type(source@),
{
    syn::parse_str::<syn::Type>(source).is_ok()
}

/// The value that a source text stands for, given what reading it as a
/// string literal and as a type has shown.
pub open spec fn value_of(
    source: Option<Seq<char>>,
    literal: Option<Seq<char>>,
    is_type: bool,
) -> ValueView {
    match source {
        None => ValueView::Flag,
        Some(text) => match literal {
            Some(spelled) => ValueView::Str(spelled),
            None => if is_type {
                ValueView::TypeRef(text)
            } else {
                ValueView::Unreadable
            },
        },
    }
}

/// The value that a source text stands for.
pub open spec fn value_read(source: Option<Seq<char>>) -> ValueView {
    match source {
        None => ValueView::Flag,
        Some(text) => value_of(source, literal_text(text), spells_type(text)),
    }
}

/// The model of an optional borrowed string.
pub open spec fn opt_str(s: Option<&str>) -> Option<Seq<char>> {
    match s {
        Some(t) => Some(t@),
        None => None,
    }
}

impl MetaValue {
    /// Sorts a value by what reading its source text has shown: no text is a
    /// flag, a string literal is the string it spells, a type is a type
    /// reference, anything else is unreadable. A text that reads as a string
    /// literal is a string, whatever `is_type` says.
    pub fn from_readings(source: Option<&str>, literal: Option<String>, is_type: bool) -> (value:
        MetaValue)
        ensures
            value@ == value_of(opt_str(source), opt_text(literal), is_type),
    {
        match source {
            None => MetaValue::Flag,
            Some(text) => match literal {
                Some(spelled) => MetaValue::Str(spelled),
                None => if is_type {
                    MetaValue::TypeRef(text.to_owned())
                } else {
                    MetaValue::Unreadable
                },
            },
        }
    }

    /// Reads a value from its source text; `None` stands for a key without
    /// a value.
    pub fn from_source(source: Option<&str>) -> (value: MetaValue)
        ensures
            value@ == value_read(opt_str(source)),
    {
        match source {
            None => MetaValue::Flag,
            Some(text) => {
                let literal = read_literal(text);
                let is_type = reads_as_type(text);
                MetaValue::from_readings(source, literal, is_type)
            },
        }
    }
}

impl MetaItem {
    /// The option with this key and the value that the source text stands
    /// for.
    pub fn from_source(key: &str, source: Option<&str>) -> (item: MetaItem)
        ensures
            item@ == (ItemView { key: key@, value: value_read(opt_str(source)) }),
    {
        MetaItem { key: key.to_owned(), value: MetaValue::from_source(source) }
    }
}

} // verus!
