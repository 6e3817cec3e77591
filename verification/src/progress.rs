use vstd::prelude::*;

use crate::UpgradeStatus;
use vstd::multiset::Multiset;

verus! {

/// What a consumer has accumulated from a run's progress events so far:
/// every announced total, and how many ticks it has counted.
pub struct ProgressSummary {
    /// The argument of every `Length` event seen, in arrival order. A
    /// well-formed run announces exactly one.
    pub announced: Vec<usize>,
    /// How many `Tick` events have been seen.
    pub ticks: usize,
}

/// The mathematical value of a [`ProgressSummary`].
#[verifier::ext_equal]
pub struct ProgressSummaryV {
    pub announced: Seq<usize>,
    pub ticks: nat,
}

impl DeepView for ProgressSummary {
    type V = ProgressSummaryV;

    open spec fn deep_view(&self) -> ProgressSummaryV {
        ProgressSummaryV { announced: self.announced@, ticks: self.ticks as nat }
    }
}

/// The summary left after consuming a sequence of events in order.
pub open spec fn summary_spec(events: Seq<UpgradeStatus>) -> ProgressSummaryV
    decreases events.len(),
{
    if events.len() == 0 {
        ProgressSummaryV { announced: Seq::empty(), ticks: 0 }
    } else {
        let prev = summary_spec(events.drop_last());
        match events.last() {
            UpgradeStatus::Length(n) => ProgressSummaryV {
                announced: prev.announced.push(n),
                ticks: prev.ticks,
            },
            UpgradeStatus::Tick => ProgressSummaryV {
                announced: prev.announced,
                ticks: prev.ticks + 1,
            },
        }
    }
}

impl ProgressSummary {
    /// A consumer that has seen nothing yet.
    pub fn new() -> (r: Self)
        ensures
            r.deep_view() == summary_spec(Seq::empty()),
    {
        ProgressSummary { announced: Vec::new(), ticks: 0 }
    }

    /// Consumes one event: remembers an announced total, counts a tick.
    pub fn record(&mut self, event: &UpgradeStatus)
        requires
            old(self).ticks < usize::MAX,
        ensures
            final(self).deep_view() == summary_spec(
                Seq::empty().push(*event),
            ).combine_onto(old(self).deep_view()),
    {
        match event {
            UpgradeStatus::Length(n) => {
                self.announced.push(*n);
            },
            UpgradeStatus::Tick => {
                self.ticks = self.ticks + 1;
            },
        }
        proof {
            reveal_with_fuel(summary_spec, 2);
            let e = *event;
            assert(Seq::<UpgradeStatus>::empty().push(e).drop_last() =~= Seq::empty());
            let single = summary_spec(Seq::empty().push(e));
            match e {
                UpgradeStatus::Length(n) => {
                    assert(self.announced@ =~= old(self).announced@ + single.announced);
                },
                UpgradeStatus::Tick => {
                    assert(self.announced@ =~= old(self).announced@ + single.announced);
                },
            }
            assert(self.deep_view() =~= single.combine_onto(old(self).deep_view()));
        }
    }

    /// A run with `expected` fetch tasks has completed its accounting when
    /// exactly that total was announced, once, and exactly that many ticks
    /// arrived.
    pub fn complete(&self, expected: usize) -> (r: bool)
        ensures
            r == run_accounted(self.deep_view(), expected as nat),
    {
        self.announced.len() == 1 && self.announced[0] == expected && self.ticks == expected
    }
}

impl ProgressSummaryV {
    /// This summary laid on top of an earlier one.
    pub open spec fn combine_onto(self, earlier: ProgressSummaryV) -> ProgressSummaryV {
        ProgressSummaryV {
            announced: earlier.announced + self.announced,
            ticks: earlier.ticks + self.ticks,
        }
    }
}

/// A run of `n` tasks is fully and correctly accounted: one announcement,
/// of `n`, and `n` ticks.
pub open spec fn run_accounted(s: ProgressSummaryV, n: nat) -> bool {
    s.announced =~= seq![n as usize] && s.ticks == n
}

/// `n` `Tick` events.
pub open spec fn ticks_multiset(n: nat) -> Multiset<UpgradeStatus>
    decreases n,
{
    if n == 0 {
        Multiset::empty()
    } else {
        ticks_multiset((n - 1) as nat).insert(UpgradeStatus::Tick)
    }
}

/// The events one successful run with `n` fetch tasks produces, with no
/// order implied: one `Length(n)` and `n` `Tick`s.
pub open spec fn expected_events(n: nat) -> Multiset<UpgradeStatus> {
    ticks_multiset(n).insert(UpgradeStatus::Length(n as usize))
}

proof fn lemma_summary_counts(events: Seq<UpgradeStatus>)
    ensures
        summary_spec(events).ticks == events.to_multiset().count(UpgradeStatus::Tick),
        forall|k: usize| #[trigger] summary_spec(events).announced.to_multiset().count(k)
            == events.to_multiset().count(UpgradeStatus::Length(k)),
    decreases events.len(),
{
    broadcast use vstd::seq_lib::group_to_multiset_ensures;

    if events.len() == 0 {
        assert(forall|e: UpgradeStatus| !events.contains(e));
        assert(forall|k: usize| !summary_spec(events).announced.contains(k));
    } else {
        let prefix = events.drop_last();
        lemma_summary_counts(prefix);
        assert(events =~= prefix.push(events.last()));
        assert(events.to_multiset() =~= prefix.to_multiset().insert(events.last()));
        match events.last() {
            UpgradeStatus::Length(n) => {
                assert(summary_spec(events).announced =~= summary_spec(
                    prefix,
                ).announced.push(n));
            },
            UpgradeStatus::Tick => {},
        }
    }
}

proof fn lemma_ticks_multiset_counts(n: nat)
    ensures
        ticks_multiset(n).count(UpgradeStatus::Tick) == n,
        forall|e: UpgradeStatus|
            e != UpgradeStatus::Tick ==> #[trigger] ticks_multiset(n).count(e) == 0,
    decreases n,
{
    if n > 0 {
        lemma_ticks_multiset_counts((n - 1) as nat);
    }
}

/// Progress accounting: however the events of a successful run with `n`
/// fetch tasks interleave, a consumer that folds them all up has seen
/// exactly one announced total, which is `n`, and exactly `n` ticks.
pub proof fn lemma_progress_accounting(events: Seq<UpgradeStatus>, n: usize)
    requires
        events.to_multiset() == expected_events(n as nat),
    ensures
        run_accounted(summary_spec(events), n as nat),
{
    broadcast use vstd::seq_lib::group_to_multiset_ensures;

    lemma_summary_counts(events);
    lemma_ticks_multiset_counts(n as nat);
    let s = summary_spec(events);
    broadcast use vstd::multiset::group_multiset_axioms;

    assert(s.ticks == n);
    assert(s.announced.to_multiset() =~= Multiset::empty().insert(n));
    assert(Multiset::<usize>::empty().insert(n).len() == 1);
    assert(s.announced.to_multiset().len() == s.announced.len());
    assert(s.announced.len() == 1);
    assert(s.announced.contains(s.announced[0]));
    assert(s.announced.to_multiset().count(s.announced[0]) > 0);
    assert(s.announced[0] == n);
    assert(s.announced =~= seq![n]);
}

} // verus!
