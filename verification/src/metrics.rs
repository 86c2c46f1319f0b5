//! Counters and their rendering in the Prometheus text format.

use vstd::prelude::*;
use crate::text::{decimal, push_decimal, push_str, string_of};
use crate::url_rules::joined;

verus! {

/// A counter with its labels, name and value.
#[derive(Debug, Clone)]
pub struct Counter {
    pub value: u64,
    pub labels: Vec<(String, String)>,
}

/// One label as it is written: `name="value"`.
pub open spec fn label_text(label: (Seq<char>, Seq<char>)) -> Seq<char> {
    label.0 + "=\""@ + label.1 + "\""@
}

/// The labels as mathematics.
pub open spec fn labels_of(labels: Seq<(String, String)>) -> Seq<(Seq<char>, Seq<char>)> {
    Seq::new(labels.len(), |i: int| (labels[i].0@, labels[i].1@))
}

/// The labels as they are written, separated by commas.
pub open spec fn labels_text(labels: Seq<(Seq<char>, Seq<char>)>) -> Seq<char> {
    joined(labels.map_values(|l: (Seq<char>, Seq<char>)| label_text(l)), ","@)
}

/// The two lines that describe a counter.
pub open spec fn counter_text(
    name: Seq<char>,
    labels: Seq<(Seq<char>, Seq<char>)>,
    value: nat,
) -> Seq<char> {
    "# TYPE "@ + name + " counter\n"@ + name + "{"@ + labels_text(labels) + "} "@ + decimal(value)
        + "\n"@
}

impl Counter {
    /// A counter at zero.
    pub fn new(labels: Vec<(String, String)>) -> (c: Counter)
        ensures
            c.value == 0,
            c.labels == labels,
    {
        Counter { value: 0, labels }
    }

    /// Counts one more; a counter at its largest value stays there.
    pub fn increment(&mut self)
        ensures
            final(self).labels == old(self).labels,
            final(self).value == if old(self).value < u64::MAX {
                old(self).value + 1
            } else {
                u64::MAX as int
            },
    {
        if self.value < u64::MAX {
            self.value = self.value + 1;
        }
    }

    /// The labels as they are written, separated by commas.
    pub fn format_labels(&self) -> (s: String)
        ensures
            s@ == labels_text(labels_of(self.labels@)),
    {
        let ghost all = labels_of(self.labels@);
        let ghost parts = all.map_values(|l: (Seq<char>, Seq<char>)| label_text(l));
        let mut out: Vec<char> = Vec::new();
        let mut i: usize = 0;
        assert(out@ =~= joined(parts.take(0), ","@));
        while i < self.labels.len()
            invariant
                i <= self.labels@.len(),
                all == labels_of(self.labels@),
                parts == all.map_values(|l: (Seq<char>, Seq<char>)| label_text(l)),
                out@ == joined(parts.take(i as int), ","@),
            decreases self.labels@.len() - i,
        {
            proof {
                assert(parts.take(i + 1).drop_last() =~= parts.take(i as int));
                assert(parts.take(i + 1).last() == label_text(all[i as int]));
            }
            if i > 0 {
                push_str(&mut out, ",");
            }
            push_str(&mut out, self.labels[i].0.as_str());
            push_str(&mut out, "=\"");
            push_str(&mut out, self.labels[i].1.as_str());
            push_str(&mut out, "\"");
            assert(out@ =~= joined(parts.take(i + 1), ","@));
            i += 1;
        }
        assert(parts.take(i as int) =~= parts);
        string_of(&out)
    }

    /// The two lines that describe this counter under the given name.
    pub fn prometheus_lines(&self, name: &str) -> (s: String)
        ensures
            s@ == counter_text(name@, labels_of(self.labels@), self.value as nat),
    {
        let labels = self.format_labels();
        let mut out: Vec<char> = Vec::new();
        push_str(&mut out, "# TYPE ");
        push_str(&mut out, name);
        push_str(&mut out, " counter\n");
        push_str(&mut out, name);
        push_str(&mut out, "{");
        push_str(&mut out, labels.as_str());
        push_str(&mut out, "} ");
        push_decimal(&mut out, self.value);
        push_str(&mut out, "\n");
        assert(out@ =~= counter_text(name@, labels_of(self.labels@), self.value as nat));
        string_of(&out)
    }
}

/// The most points of history that are kept.
pub const HISTORY_LIMIT: usize = 1000;

/// The number of oldest points dropped when the history is over its limit.
pub const HISTORY_DROP: usize = 100;

/// The number of points shown where none is asked for.
pub const DEFAULT_HISTORY_WINDOW: usize = 100;

/// The history after a point has been recorded: once it holds more than
/// the limit, the oldest hundred points are dropped.
pub open spec fn trimmed_history<T>(history: Seq<T>) -> Seq<T> {
    if history.len() > HISTORY_LIMIT {
        history.skip(HISTORY_DROP as int)
    } else {
        history
    }
}

/// The position from which the history is shown, given how many points
/// are asked for: the last `limit` points, or all if there are no more.
pub open spec fn window_start(len: int, limit: Option<usize>) -> int {
    let wanted = match limit {
        Some(n) => n as int,
        None => DEFAULT_HISTORY_WINDOW as int,
    };
    if len > wanted {
        len - wanted
    } else {
        0
    }
}

/// Drops the oldest hundred points of a history that is over its limit.
pub fn trim_history<T>(history: &mut Vec<T>)
    ensures
        final(history)@ == trimmed_history(old(history)@),
{
    if history.len() > HISTORY_LIMIT {
        let mut dropped: usize = 0;
        while dropped < HISTORY_DROP
            invariant
                dropped <= HISTORY_DROP,
                old(history)@.len() > HISTORY_LIMIT,
                history@ == old(history)@.skip(dropped as int),
            decreases HISTORY_DROP - dropped,
        {
            let _ = history.remove(0);
            assert(history@ =~= old(history)@.skip(dropped + 1));
            dropped += 1;
        }
    }
}

/// The position from which the history is shown.
pub fn history_window(len: usize, limit: Option<usize>) -> (start: usize)
    ensures
        start == window_start(len as int, limit),
        start <= len,
{
    let wanted = match limit {
        Some(n) => n,
        None => DEFAULT_HISTORY_WINDOW,
    };
    if len > wanted {
        len - wanted
    } else {
        0
    }
}

} // verus!
