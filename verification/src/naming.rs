//! Column naming: the eight case styles and the resolver that turns a field
//! name into a column name.

use crate::text::str_eq;
use vstd::prelude::*;

verus! {

/// A case style that a record may ask for with `rename_all`.
#[derive(Clone, Copy, PartialEq, Eq, Structural, Debug)]
pub enum CaseStyle {
    /// `lowercase`
    Lower,
    /// `UPPERCASE`
    Upper,
    /// `PascalCase`
    Pascal,
    /// `camelCase`
    Camel,
    /// `snake_case`
    Snake,
    /// `SCREAMING_SNAKE_CASE`
    ScreamingSnake,
    /// `kebab-case`
    Kebab,
    /// `SCREAMING-KEBAB-CASE`
    ScreamingKebab,
}

/// The style that a `rename_all` token names, if it names one. Each style is
/// written in its own style; nothing else is recognised.
pub open spec fn style_named(token: Seq<char>) -> Option<CaseStyle> {
    if token == "lowercase"@ {
        Some(CaseStyle::Lower)
    } else if token == "UPPERCASE"@ {
        Some(CaseStyle::Upper)
    } else if token == "PascalCase"@ {
        Some(CaseStyle::Pascal)
    } else if token == "camelCase"@ {
        Some(CaseStyle::Camel)
    } else if token == "snake_case"@ {
        Some(CaseStyle::Snake)
    } else if token == "SCREAMING_SNAKE_CASE"@ {
        Some(CaseStyle::ScreamingSnake)
    } else if token == "kebab-case"@ {
        Some(CaseStyle::Kebab)
    } else if token == "SCREAMING-KEBAB-CASE"@ {
        Some(CaseStyle::ScreamingKebab)
    } else {
        None
    }
}

/// Reads a `rename_all` token. `None` means that the token names no style.
pub fn case_from_str(s: &str) -> (style: Option<CaseStyle>)
    ensures
        style == style_named(s@),
{
    if str_eq(s, "lowercase") {
        Some(CaseStyle::Lower)
    } else if str_eq(s, "UPPERCASE") {
        Some(CaseStyle::Upper)
    } else if str_eq(s, "PascalCase") {
        Some(CaseStyle::Pascal)
    } else if str_eq(s, "camelCase") {
        Some(CaseStyle::Camel)
    } else if str_eq(s, "snake_case") {
        Some(CaseStyle::Snake)
    } else if str_eq(s, "SCREAMING_SNAKE_CASE") {
        Some(CaseStyle::ScreamingSnake)
    } else if str_eq(s, "kebab-case") {
        Some(CaseStyle::Kebab)
    } else if str_eq(s, "SCREAMING-KEBAB-CASE") {
        Some(CaseStyle::ScreamingKebab)
    } else {
        None
    }
}

/// What `convert_case` makes of `name` in the given style: the name split
/// at its word boundaries and joined again in that style. The conversion is
/// left to that crate; this is only its name in contracts.
pub uninterp spec fn converted(name: Seq<char>, style: CaseStyle) -> Seq<char>;

/// Calls `convert_case::Casing::to_case` with the `Case` that stands for
/// `style`. The contract claims that the call returns, and that what it
/// returns depends on the name and the style alone; `converted` names it.
#[verifier::external_body]
fn to_case(name: &str, style: CaseStyle) -> (out: String)
    ensures
        out@ == converted(name@, style),
{
    let case = match style {
        CaseStyle::Lower => convert_case::Case::Lower,
        CaseStyle::Upper => convert_case::Case::Upper,
        CaseStyle::Pascal => convert_case::Case::Pascal,
        CaseStyle::Camel => convert_case::Case::Camel,
        CaseStyle::Snake => convert_case::Case::Snake,
        CaseStyle::ScreamingSnake => convert_case::Case::UpperSnake,
        CaseStyle::Kebab => convert_case::Case::Kebab,
        CaseStyle::ScreamingKebab => convert_case::Case::UpperKebab,
    };
    convert_case::Casing::to_case(&name, case)
}

/// The column name that the rule gives a field: the name itself where there
/// is no rule, the converted name otherwise.
pub open spec fn resolved(raw_name: Seq<char>, rule: Option<CaseStyle>) -> Seq<char> {
    match rule {
        None => raw_name,
        Some(style) => converted(raw_name, style),
    }
}

/// The column name of a field: an explicit rename first, the record's rule
/// second, the field's own name last.
pub open spec fn column_named(
    raw_name: Seq<char>,
    rule: Option<CaseStyle>,
    rename: Option<Seq<char>>,
) -> Seq<char> {
    match rename {
        Some(name) => name,
        None => resolved(raw_name, rule),
    }
}

/// Whether converting `name` to `style` a second time changes nothing.
pub open spec fn settled(name: Seq<char>, style: CaseStyle) -> bool {
    converted(converted(name, style), style) == converted(name, style)
}

/// Resolves a field name under an optional rule. Never fails.
pub fn resolve(raw_name: &str, rule: Option<CaseStyle>) -> (name: String)
    ensures
        name@ == resolved(raw_name@, rule),
{
    match rule {
        None => raw_name.to_owned(),
        Some(style) => to_case(raw_name, style),
    }
}

/// The names on which resolving is known to be idempotent: all of them where
/// there is no rule, and under a rule those that the conversion has settled.
pub open spec fn stable_by_law(raw_name: Seq<char>, rule: Option<CaseStyle>) -> bool {
    match rule {
        None => true,
        Some(style) => settled(raw_name, style),
    }
}

/// Resolving is idempotent: a resolved name resolves to itself. Without a
/// rule this holds of every name. Under a rule it holds of the names that the
/// conversion settles in one step, which leaves out names such as `ab_c_d`
/// under `camelCase` (first `abCD`, from that `abCd`).
pub proof fn lemma_resolve_idempotent(raw_name: Seq<char>, rule: Option<CaseStyle>)
    requires
        stable_by_law(raw_name, rule),
    ensures
        resolved(resolved(raw_name, rule), rule) == resolved(raw_name, rule),
{
}

/// The order of resolution: an explicit rename first, the record's rule
/// second, the field's own name last. A rename decides the column name
/// whatever the rule is.
pub proof fn lemma_resolution_order(
    raw_name: Seq<char>,
    rule: Option<CaseStyle>,
    rename: Option<Seq<char>>,
)
    ensures
        rename matches Some(name) ==> column_named(raw_name, rule, rename) == name,
        rename matches Some(name) ==> forall|other: Option<CaseStyle>|
            column_named(raw_name, other, rename) == name,
        rename is None ==> column_named(raw_name, rule, rename) == resolved(raw_name, rule),
        rename is None && rule is None ==> column_named(raw_name, rule, rename) == raw_name,
{
}

} // verus!
