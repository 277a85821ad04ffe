//! One search result, reduced to the text fields that the library reads.

use vstd::prelude::*;

verus! {

/// The fields of a record that the library looks at.
#[derive(Clone, Copy, Debug, PartialEq, Eq, Structural)]
pub enum Field {
    CreatedAt,
    ClosedAt,
    Title,
    HtmlUrl,
}

impl Field {
    /// The key under which the field stands in a record.
    pub open spec fn spec_name(self) -> Seq<char> {
        match self {
            Field::CreatedAt => "created_at"@,
            Field::ClosedAt => "closed_at"@,
            Field::Title => "title"@,
            Field::HtmlUrl => "html_url"@,
        }
    }

    /// The key under which the field stands in a record.
    pub fn name(&self) -> (r: &'static str)
        ensures
            r@ == self.spec_name(),
    {
        match self {
            Field::CreatedAt => "created_at",
            Field::ClosedAt => "closed_at",
            Field::Title => "title",
            Field::HtmlUrl => "html_url",
        }
    }
}

/// One issue or pull request.
///
/// A field is `Some` when the record holds a string under that key, and
/// `None` when the key is missing or holds anything else. Nothing is asked of
/// the strings themselves.
#[derive(Clone, Debug, PartialEq, Eq)]
pub struct Item {
    pub created_at: Option<String>,
    pub closed_at: Option<String>,
    pub title: Option<String>,
    pub html_url: Option<String>,
}

/// An item as plain text values.
pub struct ItemView {
    pub created_at: Option<Seq<char>>,
    pub closed_at: Option<Seq<char>>,
    pub title: Option<Seq<char>>,
    pub html_url: Option<Seq<char>>,
}

/// The characters of an optional string.
pub open spec fn text_of(field: Option<String>) -> Option<Seq<char>> {
    match field {
        Some(text) => Some(text@),
        None => None,
    }
}

impl ItemView {
    /// The text held under `field`, if any.
    pub open spec fn field(self, field: Field) -> Option<Seq<char>> {
        match field {
            Field::CreatedAt => self.created_at,
            Field::ClosedAt => self.closed_at,
            Field::Title => self.title,
            Field::HtmlUrl => self.html_url,
        }
    }
}

impl View for Item {
    type V = ItemView;

    open spec fn view(&self) -> ItemView {
        ItemView {
            created_at: text_of(self.created_at),
            closed_at: text_of(self.closed_at),
            title: text_of(self.title),
            html_url: text_of(self.html_url),
        }
    }
}

/// The views of a list of items, in the same order.
pub open spec fn item_views(items: Seq<Item>) -> Seq<ItemView> {
    Seq::new(items.len(), |i: int| items[i]@)
}

impl Item {
    /// The string held under `field`, or `None` when the record has no
    /// string there.
    pub fn optional_string_field(&self, field: Field) -> (r: Option<&str>)
        ensures
            match r {
                Some(text) => self@.field(field) == Some(text@),
                None => self@.field(field) is None,
            },
    {
        let held = match field {
            Field::CreatedAt => &self.created_at,
            Field::ClosedAt => &self.closed_at,
            Field::Title => &self.title,
            Field::HtmlUrl => &self.html_url,
        };
        match held {
            Some(text) => Some(text.as_str()),
            None => None,
        }
    }
}

} // verus!
