//! Counting the items whose date lies after a cutoff.

use crate::instant::{parse_instant, parsed_instant, Instant};
use crate::item::{item_views, Field, Item, ItemView};
use vstd::prelude::*;

verus! {

/// What the date field of an item holds.
#[derive(Clone, Copy, Debug, PartialEq, Eq, Structural)]
pub enum Reading {
    /// No string under the field.
    Absent,
    /// A string that is no timestamp.
    Malformed,
    /// A timestamp.
    At(Instant),
}

/// Why a classification was given up.
#[derive(Clone, Copy, Debug, PartialEq, Eq, Structural)]
pub enum Fault {
    /// The date field holds a string that is no timestamp.
    MalformedTimestamp,
    /// A matching item that was to be reported has no title.
    MissingTitle,
    /// A matching item that was to be reported has no link.
    MissingLink,
}

/// A classification that was given up: the position of the first item at
/// fault, and what is wrong with it.
#[derive(Clone, Copy, Debug, PartialEq, Eq, Structural)]
pub struct ClassifyError {
    pub index: usize,
    pub fault: Fault,
}

/// The result of a classification: the number of matching items and, when
/// reporting was asked for, one line for each of them in the order of the
/// items.
#[derive(Clone, Debug, PartialEq, Eq)]
pub struct Tally {
    pub count: usize,
    pub lines: Vec<String>,
}

/// The reading of a date field that holds `text`.
pub open spec fn reading_of(text: Option<Seq<char>>) -> Reading {
    match text {
        None => Reading::Absent,
        Some(text) => match parsed_instant(text) {
            None => Reading::Malformed,
            Some(stamp) => Reading::At(stamp),
        },
    }
}

/// A reading counts when it is a timestamp strictly after the cutoff.
pub open spec fn counts(reading: Reading, cutoff: Instant) -> bool {
    reading matches Reading::At(stamp) && stamp.later_than(cutoff)
}

/// The item matches: its `field` holds a timestamp strictly after the
/// cutoff.
pub open spec fn is_recent(item: ItemView, field: Field, cutoff: Instant) -> bool {
    counts(reading_of(item.field(field)), cutoff)
}

/// The line that reports an item with the given title and link.
pub open spec fn line_of(title: Seq<char>, link: Seq<char>) -> Seq<char> {
    "* ["@ + title + "]("@ + link + ")"@
}

/// What stops the classification at an item, if anything: a date that is no
/// timestamp or, when the item matches and is to be reported, a missing
/// title or, with the title there, a missing link.
pub open spec fn fault_of(
    item: ItemView,
    field: Field,
    cutoff: Instant,
    verbose: bool,
) -> Option<Fault> {
    if reading_of(item.field(field)) is Malformed {
        Some(Fault::MalformedTimestamp)
    } else if verbose && is_recent(item, field, cutoff) && item.title is None {
        Some(Fault::MissingTitle)
    } else if verbose && is_recent(item, field, cutoff) && item.html_url is None {
        Some(Fault::MissingLink)
    } else {
        None
    }
}

/// The items that match, in their order.
pub open spec fn recent(items: Seq<ItemView>, field: Field, cutoff: Instant) -> Seq<ItemView> {
    items.filter(|item: ItemView| is_recent(item, field, cutoff))
}

/// The report lines of a list of items that each have a title and a link.
pub open spec fn lines_of(items: Seq<ItemView>) -> Seq<Seq<char>> {
    items.map_values(|item: ItemView| line_of(item.title->0, item.html_url->0))
}

/// The characters of each line.
pub open spec fn texts(lines: Seq<String>) -> Seq<Seq<char>> {
    lines.map_values(|line: String| line@)
}

/// `result` is the classification of `items`.
///
/// It is an error exactly when some item is at fault, and then names the
/// first such item and its fault. Otherwise it counts the matching items
/// and, when `verbose`, holds their report lines; when not, no lines.
pub open spec fn classifies(
    items: Seq<ItemView>,
    field: Field,
    cutoff: Instant,
    verbose: bool,
    result: Result<Tally, ClassifyError>,
) -> bool {
    match result {
        Ok(tally) => {
            &&& forall|i: int|
                0 <= i < items.len() ==> fault_of(#[trigger] items[i], field, cutoff, verbose)
                    is None
            &&& tally.count == recent(items, field, cutoff).len()
            &&& texts(tally.lines@) == if verbose {
                lines_of(recent(items, field, cutoff))
            } else {
                Seq::empty()
            }
        },
        Err(error) => {
            &&& error.index < items.len()
            &&& fault_of(items[error.index as int], field, cutoff, verbose) == Some(error.fault)
            &&& forall|i: int|
                0 <= i < error.index ==> fault_of(#[trigger] items[i], field, cutoff, verbose)
                    is None
        },
    }
}

/// Reads the date that an item holds under `field`.
pub fn read_date(item: &Item, field: Field) -> (reading: Reading)
    ensures
        reading == reading_of(item@.field(field)),
{
    match item.optional_string_field(field) {
        None => Reading::Absent,
        Some(text) => match parse_instant(text) {
            None => Reading::Malformed,
            Some(stamp) => Reading::At(stamp),
        },
    }
}

/// Decides whether a reading counts against the cutoff. A malformed date is
/// an error; a missing one does not count.
pub fn judge(reading: Reading, cutoff: &Instant) -> (r: Result<bool, Fault>)
    ensures
        r == if reading is Malformed {
            Err::<bool, Fault>(Fault::MalformedTimestamp)
        } else {
            Ok::<bool, Fault>(counts(reading, *cutoff))
        },
{
    match reading {
        Reading::Absent => Ok(false),
        Reading::Malformed => Err(Fault::MalformedTimestamp),
        Reading::At(stamp) => Ok(stamp.is_after(cutoff)),
    }
}

/// The line `* [<title>](<link>)` that reports an item. An error when the
/// item has no title or, with a title, no link.
pub fn report_line(item: &Item) -> (r: Result<String, Fault>)
    ensures
        match r {
            Ok(line) => {
                &&& item@.title is Some
                &&& item@.html_url is Some
                &&& line@ == line_of(item@.title->0, item@.html_url->0)
            },
            Err(fault) => {
                &&& item@.title is None || item@.html_url is None
                &&& fault == if item@.title is None {
                    Fault::MissingTitle
                } else {
                    Fault::MissingLink
                }
            },
        },
{
    let title = match item.optional_string_field(Field::Title) {
        Some(title) => title,
        None => {
            return Err(Fault::MissingTitle);
        },
    };
    let link = match item.optional_string_field(Field::HtmlUrl) {
        Some(link) => link,
        None => {
            return Err(Fault::MissingLink);
        },
    };
    let mut line = String::from_str("* [");
    line.append(title);
    line.append("](");
    line.append(link);
    line.append(")");
    Ok(line)
}

proof fn lemma_recent_step(items: Seq<ItemView>, field: Field, cutoff: Instant, i: int)
    requires
        0 <= i < items.len(),
    ensures
        recent(items.take(i + 1), field, cutoff) == if is_recent(items[i], field, cutoff) {
            recent(items.take(i), field, cutoff).push(items[i])
        } else {
            recent(items.take(i), field, cutoff)
        },
{
    reveal(Seq::filter);
    assert(items.take(i + 1).drop_last() =~= items.take(i));
}

/// Counts the items whose `field` holds a timestamp strictly after `cutoff`
/// and, when `verbose`, makes a report line for each.
///
/// An item without a string under `field` is passed over. A string there
/// that is no timestamp ends the classification with an error, and so does,
/// when `verbose`, a matching item without a title or a link. The error is
/// that of the first such item.
pub fn count_since(
    items: &[Item],
    field: Field,
    cutoff: &Instant,
    verbose: bool,
) -> (r: Result<Tally, ClassifyError>)
    ensures
        classifies(item_views(items@), field, *cutoff, verbose, r),
{
    let ghost views = item_views(items@);
    let mut count: usize = 0;
    let mut lines: Vec<String> = Vec::new();
    let mut i: usize = 0;
    proof {
        reveal(Seq::filter);
    }
    while i < items.len()
        invariant
            views == item_views(items@),
            i <= items.len(),
            count <= i,
            forall|j: int|
                0 <= j < i ==> fault_of(#[trigger] views[j], field, *cutoff, verbose) is None,
            count == recent(views.take(i as int), field, *cutoff).len(),
            texts(lines@) == if verbose {
                lines_of(recent(views.take(i as int), field, *cutoff))
            } else {
                Seq::empty()
            },
        decreases items.len() - i,
    {
        let item = &items[i];
        proof {
            lemma_recent_step(views, field, *cutoff, i as int);
        }
        let matches = match judge(read_date(item, field), cutoff) {
            Ok(matches) => matches,
            Err(fault) => {
                return Err(ClassifyError { index: i, fault });
            },
        };
        if matches {
            count = count + 1;
            if verbose {
                match report_line(item) {
                    Ok(line) => {
                        lines.push(line);
                        assert(lines_of(recent(views.take(i as int), field, *cutoff).push(views[i as int]))
                            =~= lines_of(recent(views.take(i as int), field, *cutoff)).push(
                            line_of(views[i as int].title->0, views[i as int].html_url->0),
                        ));
                    },
                    Err(fault) => {
                        return Err(ClassifyError { index: i, fault });
                    },
                }
            }
        }
        i = i + 1;
    }
    assert(views.take(i as int) =~= views);
    Ok(Tally { count, lines })
}

/// An item whose date field holds a valid timestamp matches exactly when
/// that timestamp lies strictly after the cutoff. One dated at the cutoff
/// itself does not match. Alone in a list, the item is counted once when it
/// matches and not at all when it does not.
pub proof fn lemma_counted_iff_after_cutoff(
    item: ItemView,
    field: Field,
    cutoff: Instant,
    stamp: Instant,
)
    requires
        item.field(field) matches Some(text) && parsed_instant(text) == Some(stamp),
    ensures
        is_recent(item, field, cutoff) <==> stamp.later_than(cutoff),
        stamp == cutoff ==> !is_recent(item, field, cutoff),
        recent(seq![item], field, cutoff).len() == if stamp.later_than(cutoff) {
            1nat
        } else {
            0nat
        },
{
    let alone = seq![item];
    lemma_recent_step(alone, field, cutoff, 0);
    reveal(Seq::filter);
}

/// An item without a string under the date field never matches and is never
/// at fault.
pub proof fn lemma_undated_item_is_passed_over(
    item: ItemView,
    field: Field,
    cutoff: Instant,
    verbose: bool,
)
    requires
        item.field(field) is None,
    ensures
        !is_recent(item, field, cutoff),
        fault_of(item, field, cutoff, verbose) is None,
{
}

/// Classification is repeatable: two classifications of the same items by
/// the same field and cutoff, with the same choice of reporting, both succeed
/// with the same count and the same lines, or both fail with the same error.
pub proof fn lemma_classification_is_repeatable(
    items: Seq<ItemView>,
    field: Field,
    cutoff: Instant,
    verbose: bool,
    first: Result<Tally, ClassifyError>,
    second: Result<Tally, ClassifyError>,
)
    requires
        classifies(items, field, cutoff, verbose, first),
        classifies(items, field, cutoff, verbose, second),
    ensures
        match (first, second) {
            (Ok(a), Ok(b)) => a.count == b.count && texts(a.lines@) == texts(b.lines@),
            (Err(a), Err(b)) => a == b,
            _ => false,
        },
{
}

/// Reporting does not change the count: where a classification that reports
/// succeeds, the one that does not report succeeds too, with the same count.
pub proof fn lemma_count_ignores_reporting(
    items: Seq<ItemView>,
    field: Field,
    cutoff: Instant,
    reported: Result<Tally, ClassifyError>,
    quiet: Result<Tally, ClassifyError>,
)
    requires
        classifies(items, field, cutoff, true, reported),
        classifies(items, field, cutoff, false, quiet),
    ensures
        reported matches Ok(loud) ==> (quiet matches Ok(silent) && loud.count == silent.count),
{
    if reported is Ok && quiet is Err {
        let error = quiet->Err_0;
        assert(fault_of(items[error.index as int], field, cutoff, true) is None);
    }
}

/// The matching items of two lists put end to end are those of the first
/// followed by those of the second, so their counts add up.
pub proof fn lemma_count_is_additive(
    front: Seq<ItemView>,
    back: Seq<ItemView>,
    field: Field,
    cutoff: Instant,
)
    ensures
        recent(front + back, field, cutoff) == recent(front, field, cutoff)
            + recent(back, field, cutoff),
        recent(front + back, field, cutoff).len() == recent(front, field, cutoff).len()
            + recent(back, field, cutoff).len(),
{
    Seq::filter_distributes_over_add(front, back, |item: ItemView| is_recent(item, field, cutoff));
}

} // verus!
