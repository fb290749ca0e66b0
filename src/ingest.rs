use vstd::prelude::*;

use crate::entry::{construct_entry, entry_for, EntryView};
use crate::table::{holds_plaintext, inserted, Database};

verus! {

/// What became of one ingested line.
#[derive(PartialEq, Eq, Structural, Clone, Copy, Debug)]
pub enum LineOutcome {
    /// The line was empty and was passed over.
    Blank,
    /// The line's entry was stored.
    Accepted,
    /// The line's plaintext was already stored.
    Skipped,
}

/// The running totals of an ingestion run.
#[derive(PartialEq, Eq, Structural, Clone, Copy, Debug)]
pub struct Tally {
    pub accepted: usize,
    pub skipped: usize,
}

/// What becomes of `line` when it is ingested into `rows`.
pub open spec fn line_outcome(rows: Seq<EntryView>, line: Seq<char>) -> LineOutcome {
    if line.len() == 0 {
        LineOutcome::Blank
    } else if holds_plaintext(rows, line) {
        LineOutcome::Skipped
    } else {
        LineOutcome::Accepted
    }
}

/// The rows after ingesting one line: an empty line changes nothing, any
/// other is offered as the entry of its plaintext.
pub open spec fn after_line(rows: Seq<EntryView>, line: Seq<char>) -> Seq<EntryView> {
    if line.len() == 0 {
        rows
    } else {
        inserted(rows, entry_for(line))
    }
}

/// The rows after ingesting `lines` in order.
pub open spec fn ingested(rows: Seq<EntryView>, lines: Seq<Seq<char>>) -> Seq<EntryView>
    decreases lines.len(),
{
    if lines.len() == 0 {
        rows
    } else {
        after_line(ingested(rows, lines.drop_last()), lines.last())
    }
}

/// How many of `lines`, ingested in order, end with the given outcome.
pub open spec fn outcome_count(rows: Seq<EntryView>, lines: Seq<Seq<char>>, o: LineOutcome) -> nat
    decreases lines.len(),
{
    if lines.len() == 0 {
        0
    } else {
        outcome_count(rows, lines.drop_last(), o) + if line_outcome(
            ingested(rows, lines.drop_last()),
            lines.last(),
        ) == o {
            1nat
        } else {
            0nat
        }
    }
}

/// The number of non-empty lines.
pub open spec fn non_blank_count(lines: Seq<Seq<char>>) -> nat
    decreases lines.len(),
{
    if lines.len() == 0 {
        0
    } else {
        non_blank_count(lines.drop_last()) + if lines.last().len() == 0 {
            0nat
        } else {
            1nat
        }
    }
}

/// The plain views of a list of lines.
pub open spec fn lines_view(lines: Seq<String>) -> Seq<Seq<char>> {
    lines.map_values(|s: String| s@)
}

/// Ingestion accounting: every stored row comes from an accepted line, so the
/// count grows by exactly the accepted total; every non-empty line is either
/// accepted or skipped, and empty lines count toward neither.
pub proof fn lemma_ingest_accounting(rows: Seq<EntryView>, lines: Seq<Seq<char>>)
    ensures
        ingested(rows, lines).len() == rows.len() + outcome_count(
            rows,
            lines,
            LineOutcome::Accepted,
        ),
        outcome_count(rows, lines, LineOutcome::Accepted) + outcome_count(
            rows,
            lines,
            LineOutcome::Skipped,
        ) == non_blank_count(lines),
        non_blank_count(lines) <= lines.len(),
    decreases lines.len(),
{
    if lines.len() > 0 {
        lemma_ingest_accounting(rows, lines.drop_last());
    }
}

impl Tally {
    /// Totals of zero.
    pub fn new() -> (t: Tally)
        ensures
            t.accepted == 0 && t.skipped == 0,
    {
        Tally { accepted: 0, skipped: 0 }
    }

    /// Counts one line's outcome; a blank line counts toward neither total.
    pub fn record(&mut self, outcome: LineOutcome)
        requires
            old(self).accepted < usize::MAX,
            old(self).skipped < usize::MAX,
        ensures
            final(self).accepted == old(self).accepted + if outcome == LineOutcome::Accepted {
                1int
            } else {
                0int
            },
            final(self).skipped == old(self).skipped + if outcome == LineOutcome::Skipped {
                1int
            } else {
                0int
            },
    {
        match outcome {
            LineOutcome::Accepted => self.accepted = self.accepted + 1,
            LineOutcome::Skipped => self.skipped = self.skipped + 1,
            LineOutcome::Blank => {},
        }
    }
}

impl Database {
    /// Ingests one line: an empty line is passed over; any other is offered
    /// to the store as the entry of its plaintext.
    pub fn ingest_line(&mut self, line: &str) -> (r: LineOutcome)
        requires
            old(self).wf(),
        ensures
            r == line_outcome(old(self)@, line@),
            final(self)@ == after_line(old(self)@, line@),
            final(self).wf(),
    {
        if line.is_empty() {
            return LineOutcome::Blank;
        }
        let entry = construct_entry(line.to_owned());
        if self.add_entry(entry) {
            LineOutcome::Accepted
        } else {
            LineOutcome::Skipped
        }
    }

    /// Ingests the lines in order and returns how many were accepted and how
    /// many were skipped as duplicates.
    pub fn ingest(&mut self, lines: &Vec<String>) -> (t: Tally)
        requires
            old(self).wf(),
        ensures
            final(self).wf(),
            final(self)@ == ingested(old(self)@, lines_view(lines@)),
            t.accepted == outcome_count(old(self)@, lines_view(lines@), LineOutcome::Accepted),
            t.skipped == outcome_count(old(self)@, lines_view(lines@), LineOutcome::Skipped),
    {
        let ghost start = self@;
        let ghost all = lines_view(lines@);
        let mut tally = Tally::new();
        let mut i: usize = 0;
        while i < lines.len()
            invariant
                i <= lines@.len(),
                all == lines_view(lines@),
                start == old(self)@,
                self.wf(),
                self@ == ingested(start, all.take(i as int)),
                tally.accepted == outcome_count(start, all.take(i as int), LineOutcome::Accepted),
                tally.skipped == outcome_count(start, all.take(i as int), LineOutcome::Skipped),
            decreases lines@.len() - i,
        {
            proof {
                lemma_ingest_accounting(start, all.take(i as int));
                assert(all.take(i as int + 1).drop_last() =~= all.take(i as int));
                assert(all.take(i as int + 1).last() == lines@[i as int]@);
            }
            let outcome = self.ingest_line(lines[i].as_str());
            tally.record(outcome);
            i = i + 1;
        }
        assert(all.take(i as int) =~= all);
        tally
    }
}

} // verus!
