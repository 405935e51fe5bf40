//! The orders in which a list can be sorted.

use std::cmp::Ordering;

use vstd::prelude::*;

use crate::file_info::FileInfo;
use crate::ordering::Precedence;
use crate::text;
use crate::text::{text_less, to_lowercase};

verus! {

/// What a list is sorted by.
#[derive(Debug, Clone, Copy, PartialEq, Eq, Structural)]
pub enum SortOrder {
    /// The shown path.
    Name,
    /// The shown path in lower case.
    NameNoCase,
    /// The size, then the shown path.
    Size,
    /// The time of the last change, then the shown path.
    Date,
    /// The shown path, with numbers compared by value.
    Natural,
}

impl Default for SortOrder {
    fn default() -> (r: Self)
        ensures
            r == SortOrder::Name,
    {
        SortOrder::Name
    }
}

/// The text that stands for a text in the natural order of `natord`: the order of
/// two texts is the code point order of these.
pub uninterp spec fn natural_key(s: Seq<char>) -> Seq<char>;

/// How two texts compare in the natural order.
pub open spec fn natural_order(a: Seq<char>, b: Seq<char>) -> Ordering {
    lex_order(natural_key(a), natural_key(b))
}

/// `natord::compare_ignore_case`. It takes each text in lower case as a row of
/// pieces, leaves out white space between them, and compares the rows piece by
/// piece; a row that goes on is the greater. A piece is a character, or a run of
/// digits. All runs stand between the characters below and those above the
/// digits; runs that begin with zero come first and compare digit by digit, a
/// longer one being the greater; the others compare by their length and then
/// digit by digit. So how a piece ranks does not depend on the other text, and
/// each row can be written as a text of its own. Claimed: the two texts compare
/// as such keys do, each of which depends on its text alone. What the keys look
/// like is left unsaid.
#[verifier::external_body]
pub(crate) fn compare_natural(a: &str, b: &str) -> (r: Ordering)
    ensures
        r == lex_order(natural_key(a@), natural_key(b@)),
{
    natord::compare_ignore_case(a, b)
}

/// Code point order as a comparison.
pub open spec fn lex_order(a: Seq<char>, b: Seq<char>) -> Ordering {
    if text::lex_less(a, b) {
        Ordering::Less
    } else if text::lex_less(b, a) {
        Ordering::Greater
    } else {
        Ordering::Equal
    }
}

fn text_order(a: &str, b: &str) -> (r: Ordering)
    ensures
        r == lex_order(a@, b@),
{
    if text_less(a, b) {
        Ordering::Less
    } else if text_less(b, a) {
        Ordering::Greater
    } else {
        Ordering::Equal
    }
}

/// Numbers first, texts where the numbers are equal.
pub open spec fn keyed_order(x: int, y: int, a: Seq<char>, b: Seq<char>) -> Ordering {
    if x < y {
        Ordering::Less
    } else if x > y {
        Ordering::Greater
    } else {
        lex_order(a, b)
    }
}

impl SortOrder {
    /// How two entries compare.
    pub open spec fn order_of(self, a: FileInfo, b: FileInfo) -> Ordering {
        let x = a.source.shown();
        let y = b.source.shown();
        match self {
            SortOrder::Name => lex_order(x, y),
            SortOrder::NameNoCase => lex_order(text::lowercase_of(x), text::lowercase_of(y)),
            SortOrder::Size => keyed_order(a.size_key(), b.size_key(), x, y),
            SortOrder::Date => keyed_order(a.date_key(), b.date_key(), x, y),
            SortOrder::Natural => natural_order(x, y),
        }
    }

    /// How two entries compare.
    pub fn compare(self, a: &FileInfo, b: &FileInfo) -> (r: Ordering)
        ensures
            r == self.order_of(*a, *b),
    {
        let x = a.source.display_path();
        let y = b.source.display_path();
        match self {
            SortOrder::Name => text_order(x.as_str(), y.as_str()),
            SortOrder::NameNoCase => {
                let x = to_lowercase(x.as_str());
                let y = to_lowercase(y.as_str());
                text_order(x.as_str(), y.as_str())
            },
            SortOrder::Size => {
                if a.file_size < b.file_size {
                    Ordering::Less
                } else if a.file_size > b.file_size {
                    Ordering::Greater
                } else {
                    text_order(x.as_str(), y.as_str())
                }
            },
            SortOrder::Date => {
                if a.modified < b.modified {
                    Ordering::Less
                } else if a.modified > b.modified {
                    Ordering::Greater
                } else {
                    text_order(x.as_str(), y.as_str())
                }
            },
            SortOrder::Natural => compare_natural(x.as_str(), y.as_str()),
        }
    }
}

/// Entries by a sort order.
pub struct ByOrder {
    pub order: SortOrder,
}

impl Precedence<FileInfo> for ByOrder {
    open spec fn before(&self, a: FileInfo, b: FileInfo) -> bool {
        self.order.order_of(a, b) is Less
    }

    proof fn one_way(&self, a: FileInfo, b: FileInfo) {
        let (x, y) = (a.source.shown(), b.source.shown());
        text::lex_less_asymmetric(x, y);
        text::lex_less_asymmetric(text::lowercase_of(x), text::lowercase_of(y));
        text::lex_less_asymmetric(natural_key(x), natural_key(y));
    }

    proof fn passes_on(&self, a: FileInfo, b: FileInfo, c: FileInfo) {
        let (x, y, z) = (a.source.shown(), b.source.shown(), c.source.shown());
        if !text::lex_less(x, y) && !text::lex_less(y, z) {
            lex_not_less_transitive(x, y, z);
        }
        let (l, m, n) = (text::lowercase_of(x), text::lowercase_of(y), text::lowercase_of(z));
        if !text::lex_less(l, m) && !text::lex_less(m, n) {
            lex_not_less_transitive(l, m, n);
        }
        let (l, m, n) = (natural_key(x), natural_key(y), natural_key(z));
        if !text::lex_less(l, m) && !text::lex_less(m, n) {
            lex_not_less_transitive(l, m, n);
        }
    }

    fn is_before(&self, a: &FileInfo, b: &FileInfo) -> (r: bool) {
        match self.order.compare(a, b) {
            Ordering::Less => true,
            _ => false,
        }
    }
}

/// Not being less in code point order passes on.
pub proof fn lex_not_less_transitive(a: Seq<char>, b: Seq<char>, c: Seq<char>)
    requires
        !text::lex_less(a, b),
        !text::lex_less(b, c),
    ensures
        !text::lex_less(a, c),
{
    if text::lex_less(a, c) {
        text::lex_less_connected(a, b);
        if text::lex_less(b, a) {
            text::lex_less_transitive(b, a, c);
        }
    }
}

} // verus!
