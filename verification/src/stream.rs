//! The live-cell stream: a cursor over the ordered records of one search,
//! driven by a policy that sees every record and decides, record by record,
//! whether to keep it and whether to go on.

use vstd::prelude::*;
use crate::cell::{SearchKey, UnspentCellRecord};

verus! {

/// What a policy answers for one record.
#[derive(Clone, Copy, Debug, PartialEq, Eq, Structural)]
pub struct Verdict {
    /// Halt the scan after this record.
    pub stop: bool,
    /// Keep this record in the scan's output.
    pub collect: bool,
}

/// A policy that drives a scan. Its state lives through every scan it is
/// handed to, so one policy can accumulate over several searches.
pub trait ScanPolicy: View {
    /// Validity of the policy's state.
    spec fn wf(&self) -> bool;

    /// The policy as a function: from its state, a record's ordinal in the
    /// scan and the record, to the next state and the verdict.
    spec fn step(state: Self::V, ordinal: nat, record: UnspentCellRecord) -> (Self::V, Verdict);

    /// Shows the policy one record.
    fn visit(&mut self, ordinal: usize, record: &UnspentCellRecord) -> (verdict: Verdict)
        requires
            old(self).wf(),
        ensures
            final(self).wf(),
            (final(self)@, verdict) == Self::step(old(self)@, ordinal as nat, *record),
    ;
}

/// Where a scan stands after some of the records offered to it.
pub struct ScanOutcome<S> {
    /// State of the policy.
    pub state: S,
    /// Records kept so far, in the order they came.
    pub collected: Seq<UnspentCellRecord>,
    /// Number of records shown to the policy.
    pub visited: nat,
    /// True once the policy has asked to stop.
    pub stopped: bool,
}

/// The scan after the first `n` of `offered`: each record is shown to the
/// policy with its position as ordinal, until the policy asks to stop.
pub open spec fn scan_prefix<P: ScanPolicy>(
    state: P::V,
    offered: Seq<UnspentCellRecord>,
    n: nat,
) -> ScanOutcome<P::V>
    decreases n,
{
    if n == 0 {
        ScanOutcome { state, collected: Seq::empty(), visited: 0, stopped: false }
    } else {
        let before = scan_prefix::<P>(state, offered, (n - 1) as nat);
        if before.stopped {
            before
        } else {
            let record = offered[n - 1];
            let (next, verdict) = P::step(before.state, (n - 1) as nat, record);
            ScanOutcome {
                state: next,
                collected: if verdict.collect {
                    before.collected.push(record)
                } else {
                    before.collected
                },
                visited: n,
                stopped: verdict.stop,
            }
        }
    }
}

/// The whole scan of `offered`.
pub open spec fn scan_all<P: ScanPolicy>(state: P::V, offered: Seq<UnspentCellRecord>) -> ScanOutcome<
    P::V,
> {
    scan_prefix::<P>(state, offered, offered.len())
}

/// Until the policy stops, every record offered so far has been visited.
pub proof fn lemma_scan_visits_in_order<P: ScanPolicy>(
    state: P::V,
    offered: Seq<UnspentCellRecord>,
    n: nat,
)
    ensures
        scan_prefix::<P>(state, offered, n).visited <= n,
        !scan_prefix::<P>(state, offered, n).stopped ==> scan_prefix::<P>(
            state,
            offered,
            n,
        ).visited == n,
        scan_prefix::<P>(state, offered, n).stopped ==> scan_prefix::<P>(state, offered, n).visited
            >= 1,
    decreases n,
{
    if n > 0 {
        lemma_scan_visits_in_order::<P>(state, offered, (n - 1) as nat);
    }
}

/// Once the policy has stopped, nothing offered later changes the outcome.
pub proof fn lemma_scan_stop_is_final<P: ScanPolicy>(
    state: P::V,
    offered: Seq<UnspentCellRecord>,
    n: nat,
    m: nat,
)
    requires
        n <= m,
        scan_prefix::<P>(state, offered, n).stopped,
    ensures
        scan_prefix::<P>(state, offered, m) == scan_prefix::<P>(state, offered, n),
    decreases m,
{
    if m > n {
        lemma_scan_stop_is_final::<P>(state, offered, n, (m - 1) as nat);
    }
}

/// True when a search for `key` from block `from` on asks for the record.
pub open spec fn wanted(key: SearchKey, from: u64, record: UnspentCellRecord) -> bool {
    key.spec_matches(record) && record.number >= from
}

/// The records of `source` that a search asks for, in the order of `source`.
pub open spec fn selection(source: Seq<UnspentCellRecord>, key: SearchKey, from: u64) -> Seq<
    UnspentCellRecord,
> {
    source.filter(|r: UnspentCellRecord| wanted(key, from, r))
}

/// The selection of a longer source extends the selection of a shorter one.
pub proof fn lemma_selection_push(
    source: Seq<UnspentCellRecord>,
    key: SearchKey,
    from: u64,
    record: UnspentCellRecord,
)
    ensures
        selection(source.push(record), key, from) == if wanted(key, from, record) {
            selection(source, key, from).push(record)
        } else {
            selection(source, key, from)
        },
{
    reveal(Seq::filter);
    assert(source.push(record).drop_last() =~= source);
}

/// The selection of a prefix is a prefix of the selection.
pub proof fn lemma_selection_prefix(
    source: Seq<UnspentCellRecord>,
    key: SearchKey,
    from: u64,
    pos: int,
)
    requires
        0 <= pos <= source.len(),
    ensures
        selection(source.take(pos), key, from).len() <= selection(source, key, from).len(),
        selection(source.take(pos), key, from) == selection(source, key, from).take(
            selection(source.take(pos), key, from).len() as int,
        ),
    decreases source.len() - pos,
{
    if pos == source.len() {
        assert(source.take(pos) =~= source);
    } else {
        lemma_selection_prefix(source, key, from, pos + 1);
        assert(source.take(pos + 1) =~= source.take(pos).push(source[pos]));
        lemma_selection_push(source.take(pos), key, from, source[pos]);
    }
}

/// A cursor over the records of one search: it walks an ordered source and
/// hands out, one at a time and each with its ordinal, the records the search
/// asks for. It reads no further than it is asked to.
pub struct LiveCellStream<'a> {
    source: &'a Vec<UnspentCellRecord>,
    key: SearchKey,
    from: u64,
    position: usize,
    ordinal: usize,
}

impl<'a> LiveCellStream<'a> {
    pub closed spec fn source(&self) -> Seq<UnspentCellRecord> {
        self.source@
    }

    pub closed spec fn key(&self) -> SearchKey {
        self.key
    }

    pub closed spec fn from(&self) -> u64 {
        self.from
    }

    /// Number of records handed out so far.
    pub closed spec fn ordinal(&self) -> nat {
        self.ordinal as nat
    }

    /// Everything this stream hands out, from its opening to its end.
    pub open spec fn all(&self) -> Seq<UnspentCellRecord> {
        selection(self.source(), self.key(), self.from())
    }

    pub closed spec fn wf(&self) -> bool {
        &&& self.position <= self.source@.len()
        &&& self.ordinal == selection(self.source@.take(self.position as int), self.key, self.from).len()
    }

    /// Opens a search of `source` for `key`, from block `from_number` on where
    /// one is given.
    pub fn open(
        source: &'a Vec<UnspentCellRecord>,
        key: SearchKey,
        from_number: Option<u64>,
    ) -> (stream: LiveCellStream<'a>)
        ensures
            stream.wf(),
            stream.ordinal() == 0,
            stream.source() == source@,
            stream.key() == key,
            stream.from() == match from_number {
                Some(n) => n,
                None => 0,
            },
    {
        let from = match from_number {
            Some(n) => n,
            None => 0,
        };
        proof {
            assert(source@.take(0) =~= Seq::empty());
            reveal(Seq::filter);
        }
        LiveCellStream { source, key, from, position: 0, ordinal: 0 }
    }

    /// Hands out the next record of the search with its ordinal, or `None` at
    /// the end.
    pub fn next(&mut self) -> (item: Option<(usize, UnspentCellRecord)>)
        requires
            old(self).wf(),
        ensures
            final(self).wf(),
            final(self).source() == old(self).source(),
            final(self).key() == old(self).key(),
            final(self).from() == old(self).from(),
            match item {
                Some((ordinal, record)) => {
                    &&& old(self).ordinal() < old(self).all().len()
                    &&& ordinal == old(self).ordinal()
                    &&& record == old(self).all()[ordinal as int]
                    &&& final(self).ordinal() == old(self).ordinal() + 1
                },
                None => {
                    &&& old(self).ordinal() == old(self).all().len()
                    &&& final(self).ordinal() == old(self).ordinal()
                },
            },
    {
        let ghost whole = selection(self.source@, self.key, self.from);
        while self.position < self.source.len()
            invariant
                self.wf(),
                self.source == old(self).source,
                self.key == old(self).key,
                self.from == old(self).from,
                self.ordinal == old(self).ordinal,
                whole == selection(self.source@, self.key, self.from),
            decreases self.source@.len() - self.position,
        {
            let record = self.source[self.position];
            proof {
                let pos = self.position as int;
                assert(self.source@.take(pos + 1) =~= self.source@.take(pos).push(record));
                lemma_selection_push(self.source@.take(pos), self.key, self.from, record);
                lemma_selection_prefix(self.source@, self.key, self.from, pos + 1);
            }
            self.position = self.position + 1;
            if self.key.matches(record) && record.number >= self.from {
                let ordinal = self.ordinal;
                proof {
                    let grown = selection(
                        self.source@.take(self.position as int),
                        self.key,
                        self.from,
                    );
                    assert(grown.len() == ordinal + 1);
                    assert(whole.take(ordinal + 1)[ordinal as int] == record);
                }
                self.ordinal = self.ordinal + 1;
                return Some((ordinal, record));
            }
        }
        proof {
            assert(self.source@.take(self.position as int) =~= self.source@);
        }
        None
    }

    /// Runs a policy over a whole search: every record the search asks for is
    /// shown to the policy in order, with ordinals from zero, until the policy
    /// asks to stop or the records end. Returns the records the policy kept.
    pub fn scan<P: ScanPolicy>(
        source: &'a Vec<UnspentCellRecord>,
        key: SearchKey,
        from_number: Option<u64>,
        policy: &mut P,
    ) -> (collected: Vec<UnspentCellRecord>)
        requires
            old(policy).wf(),
        ensures
            final(policy).wf(),
            final(policy)@ == scan_all::<P>(
                old(policy)@,
                selection(
                    source@,
                    key,
                    match from_number {
                        Some(n) => n,
                        None => 0,
                    },
                ),
            ).state,
            collected@ == scan_all::<P>(
                old(policy)@,
                selection(
                    source@,
                    key,
                    match from_number {
                        Some(n) => n,
                        None => 0,
                    },
                ),
            ).collected,
    {
        let mut stream = LiveCellStream::open(source, key, from_number);
        let mut collected: Vec<UnspentCellRecord> = Vec::new();
        let ghost start = policy@;
        let ghost offered = stream.all();
        loop
            invariant_except_break
                stream.wf(),
                stream.all() == offered,
                stream.ordinal() <= offered.len(),
                !scan_prefix::<P>(start, offered, stream.ordinal()).stopped,
                policy@ == scan_prefix::<P>(start, offered, stream.ordinal()).state,
                collected@ == scan_prefix::<P>(start, offered, stream.ordinal()).collected,
            invariant
                policy.wf(),
            ensures
                policy@ == scan_all::<P>(start, offered).state,
                collected@ == scan_all::<P>(start, offered).collected,
            decreases offered.len() - stream.ordinal(),
        {
            match stream.next() {
                None => {
                    break;
                },
                Some((ordinal, record)) => {
                    let verdict = policy.visit(ordinal, &record);
                    if verdict.collect {
                        collected.push(record);
                    }
                    if verdict.stop {
                        proof {
                            lemma_scan_stop_is_final::<P>(
                                start,
                                offered,
                                stream.ordinal(),
                                offered.len(),
                            );
                        }
                        break;
                    }
                },
            }
        }
        collected
    }
}

} // verus!
