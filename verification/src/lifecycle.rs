//! What following a link does to it. A link with no limit stays as it is. A
//! limited one loses an access each time it is followed; the access that
//! finds none left is still served, and removes the link.

use vstd::prelude::*;
use crate::error::LinkError;
use crate::record::{law_entry_round_trip, reads_back, record_bytes};
use crate::store::lookup;
use crate::util::{stored_entry, EntryView, ShortenEntry};

verus! {

/// What following a link does to the entry behind it.
pub enum Step {
    /// The entry stays as it is.
    Keep,
    /// The entry is stored again, with one access less.
    Rewrite(ShortenEntry),
    /// The entry is deleted.
    Delete,
}

/// A step as a mathematical value.
pub enum StepView {
    Keep,
    Rewrite(EntryView),
    Delete,
}

impl View for Step {
    type V = StepView;

    open spec fn view(&self) -> StepView {
        match self {
            Step::Keep => StepView::Keep,
            Step::Rewrite(entry) => StepView::Rewrite(entry@),
            Step::Delete => StepView::Delete,
        }
    }
}

/// The step that an access to `entry` calls for: none where the accesses
/// are not limited, one access less where some are left, deletion where
/// none is.
pub open spec fn next_step(entry: EntryView) -> StepView {
    match entry.accesses {
        None => StepView::Keep,
        Some(n) => if n == 0 {
            StepView::Delete
        } else {
            StepView::Rewrite(
                EntryView {
                    created: entry.created,
                    long_url: entry.long_url,
                    accesses: Some((n - 1) as usize),
                },
            )
        },
    }
}

impl ShortenEntry {
    /// What an access does to this entry.
    pub fn step(&self) -> (step: Step)
        ensures
            step@ == next_step(self@),
            self.wf() ==> (step matches Step::Rewrite(next) ==> next.wf()),
    {
        match self.accesses {
            None => Step::Keep,
            Some(n) => if n == 0 {
                Step::Delete
            } else {
                Step::Rewrite(
                    ShortenEntry {
                        created: self.created,
                        long_url: self.long_url.clone(),
                        accesses: Some(n - 1),
                    },
                )
            },
        }
    }
}

/// The records after `step` was taken for `key`.
pub open spec fn apply_step(records: Map<Seq<u8>, Seq<u8>>, key: Seq<u8>, step: StepView) -> Map<
    Seq<u8>,
    Seq<u8>,
> {
    match step {
        StepView::Keep => records,
        StepView::Rewrite(entry) => records.insert(key, record_bytes(entry)),
        StepView::Delete => records.remove(key),
    }
}

/// One resolution of `key`: the records after it, and what it returns. A
/// key that holds nothing is not found; a record that stands for no entry is
/// corrupt; both leave the records as they are. Every other resolution
/// returns the URL of the entry as it was stored before the step.
pub open spec fn resolution(records: Map<Seq<u8>, Seq<u8>>, key: Seq<u8>) -> (
    Map<Seq<u8>, Seq<u8>>,
    Result<Seq<char>, LinkError>,
) {
    match stored_entry(records, key) {
        Ok(Some(entry)) => (apply_step(records, key, next_step(entry)), Ok(entry.long_url)),
        Ok(None) => (records, Err(LinkError::NotFound)),
        Err(kind) => (records, Err(kind)),
    }
}

/// The records after `n` resolutions of `key`, one after the other.
pub open spec fn after_resolutions(records: Map<Seq<u8>, Seq<u8>>, key: Seq<u8>, n: nat) -> Map<
    Seq<u8>,
    Seq<u8>,
>
    decreases n,
{
    if n == 0 {
        records
    } else {
        resolution(after_resolutions(records, key, (n - 1) as nat), key).0
    }
}

/// What the resolution of `key` returns that is made after `n` others.
pub open spec fn outcome_after(records: Map<Seq<u8>, Seq<u8>>, key: Seq<u8>, n: nat) -> Result<
    Seq<char>,
    LinkError,
> {
    resolution(after_resolutions(records, key, n), key).1
}

/// `entry` with `left` accesses left.
pub open spec fn with_accesses_left(entry: EntryView, left: usize) -> EntryView {
    EntryView { created: entry.created, long_url: entry.long_url, accesses: Some(left) }
}

/// Not found means absent: a resolution reports that the link is not there
/// exactly when the key holds nothing. A link with no access left is there,
/// and is served.
pub proof fn law_not_found_means_absent(records: Map<Seq<u8>, Seq<u8>>, key: Seq<u8>)
    ensures
        resolution(records, key).1 == Err::<Seq<char>, LinkError>(LinkError::NotFound)
            <==> !records.contains_key(key),
{
}

/// A resolution only counts down. The entry that it leaves stored was
/// created when the one before it was, leads where that one led, and has one
/// access less, or no limit as before. Where it leaves none stored, the entry
/// had no access left. What other keys hold stays as it was.
pub proof fn law_resolution_only_counts_down(
    records: Map<Seq<u8>, Seq<u8>>,
    key: Seq<u8>,
    entry: EntryView,
)
    requires
        stored_entry(records, key) == Ok::<Option<EntryView>, LinkError>(Some(entry)),
        reads_back(entry),
    ensures
        match stored_entry(resolution(records, key).0, key) {
            Ok(Some(after)) => {
                &&& after.created == entry.created
                &&& after.long_url == entry.long_url
                &&& match entry.accesses {
                    Some(left) => left > 0 && after.accesses == Some((left - 1) as usize),
                    None => after.accesses is None,
                }
            },
            Ok(None) => entry.accesses == Some(0usize),
            Err(_) => false,
        },
        forall|other: Seq<u8>|
            other != key ==> lookup(resolution(records, key).0, other) == lookup(records, other),
{
    match next_step(entry) {
        StepView::Rewrite(next) => {
            law_entry_round_trip(next);
        },
        _ => {},
    }
}

/// A link without a limit never expires: every resolution returns its URL
/// and leaves the records as they are, however many came before.
pub proof fn law_unlimited_never_expires(
    records: Map<Seq<u8>, Seq<u8>>,
    key: Seq<u8>,
    entry: EntryView,
    n: nat,
)
    requires
        stored_entry(records, key) == Ok::<Option<EntryView>, LinkError>(Some(entry)),
        entry.accesses is None,
    ensures
        after_resolutions(records, key, n) == records,
        outcome_after(records, key, n) == Ok::<Seq<char>, LinkError>(entry.long_url),
    decreases n,
{
    if n > 0 {
        law_unlimited_never_expires(records, key, entry, (n - 1) as nat);
    }
}

/// A link with no access left is served once more: the first resolution
/// returns its URL and deletes it, the second finds nothing.
pub proof fn law_exhausted_served_once(
    records: Map<Seq<u8>, Seq<u8>>,
    key: Seq<u8>,
    entry: EntryView,
)
    requires
        stored_entry(records, key) == Ok::<Option<EntryView>, LinkError>(Some(entry)),
        entry.accesses == Some(0usize),
    ensures
        outcome_after(records, key, 0) == Ok::<Seq<char>, LinkError>(entry.long_url),
        after_resolutions(records, key, 1) == records.remove(key),
        outcome_after(records, key, 1) == Err::<Seq<char>, LinkError>(LinkError::NotFound),
{
    reveal_with_fuel(after_resolutions, 2);
}

/// While a limited link has accesses left, each resolution returns its URL
/// and leaves it stored with one access less: after `used` resolutions, none
/// more than the `left` it started with, it has `left - used`.
pub proof fn lemma_limited_counts_down(
    records: Map<Seq<u8>, Seq<u8>>,
    key: Seq<u8>,
    entry: EntryView,
    left: usize,
    used: nat,
)
    requires
        stored_entry(records, key) == Ok::<Option<EntryView>, LinkError>(Some(entry)),
        entry.accesses == Some(left),
        reads_back(entry),
        used <= left,
    ensures
        stored_entry(after_resolutions(records, key, used), key) == Ok::<
            Option<EntryView>,
            LinkError,
        >(Some(with_accesses_left(entry, (left - used) as usize))),
        outcome_after(records, key, used) == Ok::<Seq<char>, LinkError>(entry.long_url),
        forall|other: Seq<u8>|
            other != key ==> lookup(after_resolutions(records, key, used), other) == lookup(
                records,
                other,
            ),
    decreases used,
{
    if used > 0 {
        lemma_limited_counts_down(records, key, entry, left, (used - 1) as nat);
        let before = after_resolutions(records, key, (used - 1) as nat);
        let stored = with_accesses_left(entry, (left - (used - 1)) as usize);
        let next = with_accesses_left(entry, (left - used) as usize);
        assert(next_step(stored) == StepView::Rewrite(next));
        law_entry_round_trip(next);
        assert(after_resolutions(records, key, used) == before.insert(key, record_bytes(next)));
    } else {
        assert(with_accesses_left(entry, left) == entry);
    }
}

/// A link with `left` accesses is served `left + 1` times. Count the
/// resolutions from zero: every one up to number `left` returns the URL, and
/// finds the link still stored. Number `left` finds no access left: it is
/// the one that deletes the link. Number `left + 1` finds nothing.
pub proof fn law_limited_expires(
    records: Map<Seq<u8>, Seq<u8>>,
    key: Seq<u8>,
    entry: EntryView,
    left: usize,
)
    requires
        stored_entry(records, key) == Ok::<Option<EntryView>, LinkError>(Some(entry)),
        entry.accesses == Some(left),
        reads_back(entry),
    ensures
        forall|used: nat|
            used <= left ==> #[trigger] outcome_after(records, key, used) == Ok::<
                Seq<char>,
                LinkError,
            >(entry.long_url),
        forall|used: nat|
            used <= left ==> #[trigger] after_resolutions(records, key, used).contains_key(key),
        !after_resolutions(records, key, (left + 1) as nat).contains_key(key),
        outcome_after(records, key, (left + 1) as nat) == Err::<Seq<char>, LinkError>(
            LinkError::NotFound,
        ),
{
    assert forall|used: nat| used <= left implies #[trigger] outcome_after(records, key, used)
        == Ok::<Seq<char>, LinkError>(entry.long_url) by {
        lemma_limited_counts_down(records, key, entry, left, used);
    }
    assert forall|used: nat| used <= left implies #[trigger] after_resolutions(
        records,
        key,
        used,
    ).contains_key(key) by {
        lemma_limited_counts_down(records, key, entry, left, used);
    }
    lemma_limited_counts_down(records, key, entry, left, left as nat);
    let last = after_resolutions(records, key, left as nat);
    assert(next_step(with_accesses_left(entry, 0)) == StepView::Delete);
    assert(after_resolutions(records, key, (left + 1) as nat) == last.remove(key));
}

} // verus!
