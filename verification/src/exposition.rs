//! The text that shows metrics: for each family a header and a line for each of
//! its label sets, as the OpenMetrics text format has them.

use crate::families::{Counts, Labels, Levels, Listing, Registered};
use crate::text::{decimal, signed_decimal};
use vstd::prelude::*;

verus! {

/// A label and its value.
pub open spec fn label_text(label: (Seq<char>, Seq<char>)) -> Seq<char> {
    label.0 + "=\""@ + label.1 + "\""@
}

/// Labels and their values.
pub open spec fn labels_text(labels: Labels) -> Seq<char>
    decreases labels.len(),
{
    if labels.len() == 0 {
        Seq::empty()
    } else if labels.len() == 1 {
        label_text(labels[0])
    } else {
        labels_text(labels.drop_last()) + ","@ + label_text(labels.last())
    }
}

/// The line for one counter.
pub open spec fn counter_line(name: Seq<char>, labels: Labels, value: u64) -> Seq<char> {
    name + "_total{"@ + labels_text(labels) + "} "@ + decimal(value as nat) + "\n"@
}

/// The line for one gauge.
pub open spec fn gauge_line(name: Seq<char>, labels: Labels, value: i64) -> Seq<char> {
    name + "{"@ + labels_text(labels) + "} "@ + signed_decimal(value as int) + "\n"@
}

/// The lines for counters, in the given order.
pub open spec fn counter_lines(name: Seq<char>, counts: Counts, order: Seq<Labels>) -> Seq<char>
    decreases order.len(),
{
    if order.len() == 0 {
        Seq::empty()
    } else {
        counter_lines(name, counts, order.drop_last()) + counter_line(
            name,
            order.last(),
            counts[order.last()],
        )
    }
}

/// The lines for gauges, in the given order.
pub open spec fn gauge_lines(name: Seq<char>, levels: Levels, order: Seq<Labels>) -> Seq<char>
    decreases order.len(),
{
    if order.len() == 0 {
        Seq::empty()
    } else {
        gauge_lines(name, levels, order.drop_last()) + gauge_line(
            name,
            order.last(),
            levels[order.last()],
        )
    }
}

/// Whether the label sets in the given order are those of the set, once each.
pub open spec fn enumerates(order: Seq<Labels>, all: Set<Labels>) -> bool {
    &&& order.no_duplicates()
    &&& forall|labels: Labels| #[trigger] order.contains(labels) <==> all.contains(labels)
}

/// Whether the text has a line for each counter, in some order, and nothing
/// else.
pub open spec fn shows_counters(name: Seq<char>, counts: Counts, text: Seq<char>) -> bool {
    exists|order: Seq<Labels>| #[trigger]
        enumerates(order, counts.dom()) && text == counter_lines(name, counts, order)
}

/// Whether the text has a line for each gauge, in some order, and nothing else.
pub open spec fn shows_gauges(name: Seq<char>, levels: Levels, text: Seq<char>) -> bool {
    exists|order: Seq<Labels>| #[trigger]
        enumerates(order, levels.dom()) && text == gauge_lines(name, levels, order)
}

/// The two lines above the metrics of a family.
pub open spec fn header(name: Seq<char>, help: Seq<char>, kind: Seq<char>) -> Seq<char> {
    "# HELP "@ + name + " "@ + help + "\n# TYPE "@ + name + " "@ + kind + "\n"@
}

/// Families, by the handles under which they are registered, with what they
/// hold.
pub ghost struct Holdings {
    pub counters: Seq<(int, Counts)>,
    pub gauges: Seq<(int, Levels)>,
}

/// Whether the text shows a registered metric: the header, and what the family
/// behind the handle holds. Of a metric that is not one of the families nothing
/// is said.
pub open spec fn shows_entry(
    entry: (Seq<char>, Seq<char>, Registered),
    held: Holdings,
    text: Seq<char>,
) -> bool {
    match entry.2 {
        Registered::Counters(handle) => exists|lines: Seq<char>| #[trigger]
            (header(entry.0, entry.1, "counter"@) + lines) == text && forall|i: int|
                0 <= i < held.counters.len() && (#[trigger] held.counters[i]).0 == handle
                    ==> shows_counters(entry.0, held.counters[i].1, lines),
        Registered::Gauges(handle) => exists|lines: Seq<char>| #[trigger]
            (header(entry.0, entry.1, "gauge"@) + lines) == text && forall|i: int|
                0 <= i < held.gauges.len() && (#[trigger] held.gauges[i]).0 == handle
                    ==> shows_gauges(entry.0, held.gauges[i].1, lines),
        Registered::Other => true,
    }
}

/// Whether the text shows registered metrics, one after the other.
pub open spec fn shows_listing(listing: Listing, held: Holdings, text: Seq<char>) -> bool
    decreases listing.len(),
{
    if listing.len() == 0 {
        text == Seq::<char>::empty()
    } else {
        exists|before: Seq<char>, last: Seq<char>| #[trigger]
            (before + last) == text && shows_listing(listing.drop_last(), held, before)
                && shows_entry(listing.last(), held, last)
    }
}

/// Whether the text is the answer to a scrape: it shows the registered metrics
/// and says that this is all.
pub open spec fn exposes(listing: Listing, held: Holdings, text: Seq<char>) -> bool {
    exists|metrics: Seq<char>| #[trigger]
        (metrics + "# EOF\n"@) == text && shows_listing(listing, held, metrics)
}

/// Whether every registered metric is one of the families of this library.
pub open spec fn all_families(listing: Listing) -> bool {
    forall|i: int| 0 <= i < listing.len() ==> !((#[trigger] listing[i]).2 is Other)
}

/// Whether a piece of text stands somewhere in a text.
pub open spec fn holds_text(text: Seq<char>, piece: Seq<char>) -> bool {
    exists|before: Seq<char>, after: Seq<char>| #[trigger] (before + piece + after) == text
}

/// A piece of a piece is a piece.
proof fn lemma_piece_of_piece(text: Seq<char>, piece: Seq<char>, inner: Seq<char>)
    requires
        holds_text(text, piece),
        holds_text(piece, inner),
    ensures
        holds_text(text, inner),
{
    let (a, b) = choose|a: Seq<char>, b: Seq<char>| #[trigger] (a + piece + b) == text;
    let (c, d) = choose|c: Seq<char>, d: Seq<char>| #[trigger] (c + inner + d) == piece;
    assert(((a + c) + inner + (d + b)) =~= text);
}

/// The text of a registered metric stands in the text that shows all of them.
proof fn lemma_entry_in_listing(
    listing: Listing,
    held: Holdings,
    text: Seq<char>,
    i: int,
) -> (piece: Seq<char>)
    requires
        shows_listing(listing, held, text),
        0 <= i < listing.len(),
    ensures
        holds_text(text, piece),
        shows_entry(listing[i], held, piece),
    decreases listing.len(),
{
    let (before, last) = choose|before: Seq<char>, last: Seq<char>| #[trigger]
        (before + last) == text && shows_listing(listing.drop_last(), held, before) && shows_entry(
            listing.last(),
            held,
            last,
        );
    if i == listing.len() - 1 {
        assert((before + last + Seq::<char>::empty()) =~= text);
        last
    } else {
        let piece = lemma_entry_in_listing(listing.drop_last(), held, before, i);
        assert((Seq::<char>::empty() + before + last) =~= text);
        assert(holds_text(text, before));
        lemma_piece_of_piece(text, before, piece);
        piece
    }
}

proof fn lemma_counter_in_lines(name: Seq<char>, counts: Counts, order: Seq<Labels>, i: int)
    requires
        0 <= i < order.len(),
    ensures
        holds_text(
            counter_lines(name, counts, order),
            counter_line(name, order[i], counts[order[i]]),
        ),
    decreases order.len(),
{
    let text = counter_lines(name, counts, order);
    let before = counter_lines(name, counts, order.drop_last());
    let last = counter_line(name, order.last(), counts[order.last()]);
    assert((before + last + Seq::<char>::empty()) =~= text);
    if i < order.len() - 1 {
        lemma_counter_in_lines(name, counts, order.drop_last(), i);
        assert((Seq::<char>::empty() + before + last) =~= text);
        assert(holds_text(text, before));
        lemma_piece_of_piece(text, before, counter_line(name, order[i], counts[order[i]]));
    }
}

proof fn lemma_gauge_in_lines(name: Seq<char>, levels: Levels, order: Seq<Labels>, i: int)
    requires
        0 <= i < order.len(),
    ensures
        holds_text(
            gauge_lines(name, levels, order),
            gauge_line(name, order[i], levels[order[i]]),
        ),
    decreases order.len(),
{
    let text = gauge_lines(name, levels, order);
    let before = gauge_lines(name, levels, order.drop_last());
    let last = gauge_line(name, order.last(), levels[order.last()]);
    assert((before + last + Seq::<char>::empty()) =~= text);
    if i < order.len() - 1 {
        lemma_gauge_in_lines(name, levels, order.drop_last(), i);
        assert((Seq::<char>::empty() + before + last) =~= text);
        assert(holds_text(text, before));
        lemma_piece_of_piece(text, before, gauge_line(name, order[i], levels[order[i]]));
    }
}

/// The answer to a scrape has a line for each counter of a family that is
/// registered: under the name that it is registered under, with its labels and
/// its value.
pub proof fn law_scrape_shows_counters(
    listing: Listing,
    held: Holdings,
    text: Seq<char>,
    name: Seq<char>,
    help: Seq<char>,
    handle: int,
    counts: Counts,
    labels: Labels,
)
    requires
        exposes(listing, held, text),
        listing.contains((name, help, Registered::Counters(handle))),
        held.counters.contains((handle, counts)),
        counts.contains_key(labels),
    ensures
        holds_text(text, header(name, help, "counter"@)),
        holds_text(text, counter_line(name, labels, counts[labels])),
{
    let metrics = choose|metrics: Seq<char>| #[trigger]
        (metrics + "# EOF\n"@) == text && shows_listing(listing, held, metrics);
    assert((Seq::<char>::empty() + metrics + "# EOF\n"@) =~= text);
    assert(holds_text(text, metrics));
    let i = choose|i: int|
        0 <= i < listing.len() && listing[i] == (name, help, Registered::Counters(handle));
    let piece = lemma_entry_in_listing(listing, held, metrics, i);
    lemma_piece_of_piece(text, metrics, piece);
    let top = header(name, help, "counter"@);
    let lines = choose|lines: Seq<char>| #[trigger]
        (top + lines) == piece && forall|i: int|
            0 <= i < held.counters.len() && (#[trigger] held.counters[i]).0 == handle
                ==> shows_counters(name, held.counters[i].1, lines);
    assert((top + lines + Seq::<char>::empty()) =~= piece);
    assert((Seq::<char>::empty() + top + lines) =~= piece);
    assert(holds_text(piece, top));
    assert(holds_text(piece, lines));
    lemma_piece_of_piece(text, piece, top);
    let k = choose|k: int|
        0 <= k < held.counters.len() && held.counters[k] == (handle, counts);
    assert(shows_counters(name, held.counters[k].1, lines));
    let order = choose|order: Seq<Labels>| #[trigger]
        enumerates(order, counts.dom()) && lines == counter_lines(name, counts, order);
    assert(order.contains(labels));
    let j = choose|j: int| 0 <= j < order.len() && order[j] == labels;
    lemma_counter_in_lines(name, counts, order, j);
    lemma_piece_of_piece(piece, lines, counter_line(name, labels, counts[labels]));
    lemma_piece_of_piece(text, piece, counter_line(name, labels, counts[labels]));
}

/// The same of gauges.
pub proof fn law_scrape_shows_gauges(
    listing: Listing,
    held: Holdings,
    text: Seq<char>,
    name: Seq<char>,
    help: Seq<char>,
    handle: int,
    levels: Levels,
    labels: Labels,
)
    requires
        exposes(listing, held, text),
        listing.contains((name, help, Registered::Gauges(handle))),
        held.gauges.contains((handle, levels)),
        levels.contains_key(labels),
    ensures
        holds_text(text, header(name, help, "gauge"@)),
        holds_text(text, gauge_line(name, labels, levels[labels])),
{
    let metrics = choose|metrics: Seq<char>| #[trigger]
        (metrics + "# EOF\n"@) == text && shows_listing(listing, held, metrics);
    assert((Seq::<char>::empty() + metrics + "# EOF\n"@) =~= text);
    assert(holds_text(text, metrics));
    let i = choose|i: int|
        0 <= i < listing.len() && listing[i] == (name, help, Registered::Gauges(handle));
    let piece = lemma_entry_in_listing(listing, held, metrics, i);
    lemma_piece_of_piece(text, metrics, piece);
    let top = header(name, help, "gauge"@);
    let lines = choose|lines: Seq<char>| #[trigger]
        (top + lines) == piece && forall|i: int|
            0 <= i < held.gauges.len() && (#[trigger] held.gauges[i]).0 == handle
                ==> shows_gauges(name, held.gauges[i].1, lines);
    assert((top + lines + Seq::<char>::empty()) =~= piece);
    assert((Seq::<char>::empty() + top + lines) =~= piece);
    assert(holds_text(piece, top));
    assert(holds_text(piece, lines));
    lemma_piece_of_piece(text, piece, top);
    let k = choose|k: int| 0 <= k < held.gauges.len() && held.gauges[k] == (handle, levels);
    assert(shows_gauges(name, held.gauges[k].1, lines));
    let order = choose|order: Seq<Labels>| #[trigger]
        enumerates(order, levels.dom()) && lines == gauge_lines(name, levels, order);
    assert(order.contains(labels));
    let j = choose|j: int| 0 <= j < order.len() && order[j] == labels;
    lemma_gauge_in_lines(name, levels, order, j);
    lemma_piece_of_piece(piece, lines, gauge_line(name, labels, levels[labels]));
    lemma_piece_of_piece(text, piece, gauge_line(name, labels, levels[labels]));
}

/// A line is the name, the labels in braces, a space and the value; the name of
/// a counter ends in `_total`.
pub proof fn law_lines_of_a_scrape(name: Seq<char>, labels: Labels, count: u64, level: i64)
    ensures
        counter_line(name, labels, count) == name + "_total"@ + "{"@ + labels_text(labels) + "}"@
            + " "@ + decimal(count as nat) + "\n"@,
        gauge_line(name, labels, level) == name + "{"@ + labels_text(labels) + "}"@ + " "@
            + signed_decimal(level as int) + "\n"@,
{
    reveal_strlit("_total{");
    reveal_strlit("_total");
    reveal_strlit("{");
    reveal_strlit("} ");
    reveal_strlit("}");
    reveal_strlit(" ");
    assert("_total{"@ =~= "_total"@ + "{"@);
    assert("} "@ =~= "}"@ + " "@);
    assert(counter_line(name, labels, count) =~= name + "_total"@ + "{"@ + labels_text(labels)
        + "}"@ + " "@ + decimal(count as nat) + "\n"@);
    assert(gauge_line(name, labels, level) =~= name + "{"@ + labels_text(labels) + "}"@ + " "@
        + signed_decimal(level as int) + "\n"@);
}

} // verus!
