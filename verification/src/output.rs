//! The record printed for one category of window, and how it is put into
//! a template.
use crate::number::{decimal, to_decimal};
use crate::text::{lemma_replaced_without_occurrence, occurs_at, replace, replaced};
use vstd::prelude::*;

verus! {

/// What is shown for one category of window.
#[derive(Debug, Clone)]
pub struct OutputItem {
    pub icon: Option<String>,
    pub tooltip: Option<String>,
    pub class: Option<String>,
    pub percentage: u32,
}

/// An [`OutputItem`] as text.
pub struct ItemModel {
    pub icon: Option<Seq<char>>,
    pub tooltip: Option<Seq<char>>,
    pub class: Option<Seq<char>>,
    pub percentage: u32,
}

/// The text of a field that may be absent.
pub open spec fn optional_text(field: Option<String>) -> Option<Seq<char>> {
    match field {
        Some(text) => Some(text@),
        None => None,
    }
}

/// What is printed for a field: an absent one prints as nothing.
pub open spec fn shown(field: Option<Seq<char>>) -> Seq<char> {
    match field {
        Some(text) => text,
        None => Seq::empty(),
    }
}

impl View for OutputItem {
    type V = ItemModel;

    open spec fn view(&self) -> ItemModel {
        ItemModel {
            icon: optional_text(self.icon),
            tooltip: optional_text(self.tooltip),
            class: optional_text(self.class),
            percentage: self.percentage,
        }
    }
}

/// The placeholder for the icon.
pub open spec fn icon_token() -> Seq<char> {
    "{icon}"@
}

/// The placeholder for the tooltip.
pub open spec fn tooltip_token() -> Seq<char> {
    "{tooltip}"@
}

/// The placeholder for the class.
pub open spec fn class_token() -> Seq<char> {
    "{class}"@
}

/// The placeholder for the percentage.
pub open spec fn percentage_token() -> Seq<char> {
    "{percentage}"@
}

/// A template with the four placeholders filled in from `item`, one
/// placeholder after the other: icon, tooltip, class, percentage. The
/// values go in as they are, and a placeholder that an earlier value
/// brought in is filled in as well.
pub open spec fn formatted(item: ItemModel, template: Seq<char>) -> Seq<char> {
    let with_icon = replaced(template, icon_token(), shown(item.icon));
    let with_tooltip = replaced(with_icon, tooltip_token(), shown(item.tooltip));
    let with_class = replaced(with_tooltip, class_token(), shown(item.class));
    replaced(with_class, percentage_token(), decimal(item.percentage as nat))
}

/// The text of a field, or the empty text.
fn field_text(field: &Option<String>) -> (text: &str)
    ensures
        text@ == shown(optional_text(*field)),
{
    match field {
        Some(text) => text.as_str(),
        None => {
            proof {
                reveal_strlit("");
            }
            assert(""@ =~= Seq::<char>::empty());
            ""
        },
    }
}

impl Default for OutputItem {
    /// A record with no text and a percentage of zero.
    fn default() -> (item: Self)
        ensures
            item@ == (ItemModel { icon: None, tooltip: None, class: None, percentage: 0 }),
    {
        OutputItem { icon: None, tooltip: None, class: None, percentage: 0 }
    }
}

impl OutputItem {
    /// Fills the placeholders `{icon}`, `{tooltip}`, `{class}` and
    /// `{percentage}` of `fmt` with this record's values.
    pub fn format(&self, fmt: &str) -> (line: String)
        ensures
            line@ == formatted(self@, fmt@),
    {
        let with_icon = replace(fmt, "{icon}", field_text(&self.icon));
        let with_tooltip = replace(with_icon.as_str(), "{tooltip}", field_text(&self.tooltip));
        let with_class = replace(with_tooltip.as_str(), "{class}", field_text(&self.class));
        let percentage = to_decimal(self.percentage);
        replace(with_class.as_str(), "{percentage}", percentage.as_str())
    }
}

/// A template that holds none of the four placeholders comes out
/// unchanged, whatever the record.
pub proof fn lemma_formatted_without_placeholders(item: ItemModel, template: Seq<char>)
    requires
        forall|at: int| !occurs_at(template, icon_token(), at),
        forall|at: int| !occurs_at(template, tooltip_token(), at),
        forall|at: int| !occurs_at(template, class_token(), at),
        forall|at: int| !occurs_at(template, percentage_token(), at),
    ensures
        formatted(item, template) == template,
{
    lemma_replaced_without_occurrence(template, icon_token(), shown(item.icon));
    lemma_replaced_without_occurrence(template, tooltip_token(), shown(item.tooltip));
    lemma_replaced_without_occurrence(template, class_token(), shown(item.class));
    lemma_replaced_without_occurrence(
        template,
        percentage_token(),
        decimal(item.percentage as nat),
    );
}

} // verus!
