use vstd::prelude::*;
use crate::address::{Address, AgentKey};
use crate::index::{OwnerIndex, addresses_view, targets_of};
use crate::payload::{Payload, PayloadKind, PayloadView};
use crate::store::{ContentStore, StoreError, get_result};

verus! {

pub type RecordView = (Seq<u8>, PayloadView);

/// Whether every address reads as a record of `kind`.
pub open spec fn resolvable(m: Map<Seq<u8>, PayloadView>, targets: Seq<Seq<u8>>, kind: PayloadKind) -> bool {
    forall|i: int| 0 <= i < targets.len() ==> #[trigger] get_result(m, targets[i], kind) is Ok
}

/// Each address paired with the payload stored there.
pub open spec fn resolved(m: Map<Seq<u8>, PayloadView>, targets: Seq<Seq<u8>>) -> Seq<RecordView> {
    targets.map_values(|a: Seq<u8>| (a, m[a]))
}

/// The records at `targets`, or a resolution failure where any of them cannot
/// be read as a record of `kind`.
pub open spec fn resolve_result(
    m: Map<Seq<u8>, PayloadView>,
    targets: Seq<Seq<u8>>,
    kind: PayloadKind,
) -> Result<Seq<RecordView>, StoreError> {
    if resolvable(m, targets, kind) {
        Ok(resolved(m, targets))
    } else {
        Err(StoreError::ResolutionFailure)
    }
}

/// The addresses that are not in `known`, in their order.
pub open spec fn unknown_targets(targets: Seq<Seq<u8>>, known: Set<Seq<u8>>) -> Seq<Seq<u8>> {
    targets.filter(|a: Seq<u8>| !known.contains(a))
}

/// The records that are not in `known`, in their order.
pub open spec fn unknown_records(records: Seq<RecordView>, known: Set<Seq<u8>>) -> Seq<RecordView> {
    records.filter(|r: RecordView| !known.contains(r.0))
}

pub open spec fn list_all_result(
    m: Map<Seq<u8>, PayloadView>,
    edges: Seq<crate::index::EdgeView>,
    owner: Seq<u8>,
    tag: u8,
    kind: PayloadKind,
) -> Result<Seq<RecordView>, StoreError> {
    resolve_result(m, targets_of(edges, owner, tag), kind)
}

pub open spec fn list_incremental_result(
    m: Map<Seq<u8>, PayloadView>,
    edges: Seq<crate::index::EdgeView>,
    owner: Seq<u8>,
    tag: u8,
    kind: PayloadKind,
    known: Set<Seq<u8>>,
) -> Result<Seq<RecordView>, StoreError> {
    resolve_result(m, unknown_targets(targets_of(edges, owner, tag), known), kind)
}

pub open spec fn records_view(v: Seq<(Address, Payload)>) -> Seq<RecordView> {
    v.map_values(|r: (Address, Payload)| (r.0@, r.1@))
}

pub open spec fn records_result_view(r: Result<Vec<(Address, Payload)>, StoreError>) -> Result<Seq<RecordView>, StoreError> {
    match r {
        Ok(v) => Ok(records_view(v@)),
        Err(e) => Err(e),
    }
}

/// The set of addresses a caller already holds.
pub open spec fn known_set(known: Seq<Address>) -> Set<Seq<u8>> {
    addresses_view(known).to_set()
}

/// Reads every address in turn; fails on the first that cannot be read.
fn resolve(store: &ContentStore, targets: &Vec<Address>, kind: PayloadKind) -> (r: Result<Vec<(Address, Payload)>, StoreError>)
    requires
        store.wf(),
    ensures
        records_result_view(r) == resolve_result(store@, addresses_view(targets@), kind),
{
    let ghost ts = addresses_view(targets@);
    let mut out: Vec<(Address, Payload)> = Vec::new();
    let mut i: usize = 0;
    while i < targets.len()
        invariant
            store.wf(),
            i <= targets@.len(),
            ts == addresses_view(targets@),
            forall|j: int| 0 <= j < i ==> #[trigger] get_result(store@, ts[j], kind) is Ok,
            records_view(out@) == resolved(store@, ts.take(i as int)),
        decreases targets@.len() - i,
    {
        let a = &targets[i];
        match store.get(a, kind) {
            Err(_) => {
                assert(get_result(store@, ts[i as int], kind) is Err);
                return Err(StoreError::ResolutionFailure);
            },
            Ok(p) => {
                assert(ts[i as int] == a@);
                assert(p@ == store@[a@]);
                let ghost before = out@;
                let pv = Ghost(p@);
                out.push((a.duplicate(), p));
                assert(records_view(out@) =~= records_view(before).push((a@, pv@)));
                assert(resolved(store@, ts.take(i + 1)) =~= resolved(store@, ts.take(i as int)).push(
                    (a@, store@[a@]),
                ));
            },
        }
        i = i + 1;
    }
    assert(ts.take(i as int) =~= ts);
    Ok(out)
}

/// Whether `a` is among `known`.
fn is_known(known: &Vec<Address>, a: &Address) -> (r: bool)
    ensures
        r == known_set(known@).contains(a@),
{
    let mut i: usize = 0;
    while i < known.len()
        invariant
            i <= known@.len(),
            forall|j: int| 0 <= j < i ==> known@[j]@ != a@,
        decreases known@.len() - i,
    {
        if known[i].same(a) {
            assert(addresses_view(known@)[i as int] == a@);
            return true;
        }
        i = i + 1;
    }
    assert(!addresses_view(known@).contains(a@));
    false
}

/// Every record that `owner` links to under `tag`, in link order, each read
/// as a record of `kind`; a link that cannot be read fails the whole listing.
pub fn list_all(
    store: &ContentStore,
    index: &OwnerIndex,
    owner: &AgentKey,
    tag: u8,
    kind: PayloadKind,
) -> (r: Result<Vec<(Address, Payload)>, StoreError>)
    requires
        store.wf(),
    ensures
        records_result_view(r) == list_all_result(store@, index@, owner@, tag, kind),
{
    let targets = index.list_edges(owner, tag);
    resolve(store, &targets, kind)
}

/// The records that `owner` links to under `tag` and whose addresses are not
/// in `known`, in link order. Links are filtered before any record is read.
pub fn list_incremental(
    store: &ContentStore,
    index: &OwnerIndex,
    owner: &AgentKey,
    tag: u8,
    kind: PayloadKind,
    known: &Vec<Address>,
) -> (r: Result<Vec<(Address, Payload)>, StoreError>)
    requires
        store.wf(),
    ensures
        records_result_view(r) == list_incremental_result(
            store@,
            index@,
            owner@,
            tag,
            kind,
            known_set(known@),
        ),
{
    let targets = index.list_edges(owner, tag);
    let ghost ts = addresses_view(targets@);
    let ghost ks = known_set(known@);
    let mut fresh: Vec<Address> = Vec::new();
    let mut i: usize = 0;
    proof {
        reveal(Seq::filter);
        assert(ts.take(0) =~= Seq::<Seq<u8>>::empty());
        assert(addresses_view(fresh@) =~= Seq::<Seq<u8>>::empty());
    }
    while i < targets.len()
        invariant
            i <= targets@.len(),
            ts == addresses_view(targets@),
            ks == known_set(known@),
            addresses_view(fresh@) == unknown_targets(ts.take(i as int), ks),
        decreases targets@.len() - i,
    {
        let a = &targets[i];
        proof {
            reveal(Seq::filter);
            assert(ts.take(i + 1).drop_last() =~= ts.take(i as int));
            assert(ts.take(i + 1).last() == a@);
        }
        if !is_known(known, a) {
            fresh.push(a.duplicate());
        }
        assert(addresses_view(fresh@) =~= unknown_targets(ts.take(i + 1), ks));
        i = i + 1;
    }
    assert(ts.take(i as int) =~= ts);
    resolve(store, &fresh, kind)
}

proof fn lemma_filter_then_resolve(
    m: Map<Seq<u8>, PayloadView>,
    ts: Seq<Seq<u8>>,
    kind: PayloadKind,
    known: Set<Seq<u8>>,
)
    requires
        resolvable(m, ts, kind),
    ensures
        resolvable(m, unknown_targets(ts, known), kind),
        resolved(m, unknown_targets(ts, known)) == unknown_records(resolved(m, ts), known),
    decreases ts.len(),
{
    reveal(Seq::filter);
    if ts.len() > 0 {
        let rest = ts.drop_last();
        assert forall|i: int| 0 <= i < rest.len() implies #[trigger] get_result(m, rest[i], kind) is Ok by {
            assert(rest[i] == ts[i]);
        }
        lemma_filter_then_resolve(m, rest, kind, known);
        assert(resolved(m, ts).drop_last() =~= resolved(m, rest));
        assert(resolved(m, ts).last() == (ts.last(), m[ts.last()]));
        assert(get_result(m, ts[ts.len() - 1], kind) is Ok);
        let fr = unknown_targets(rest, known);
        if !known.contains(ts.last()) {
            assert(unknown_targets(ts, known) == fr.push(ts.last()));
            assert(resolved(m, fr.push(ts.last())) =~= resolved(m, fr).push((ts.last(), m[ts.last()])));
            assert forall|i: int| 0 <= i < fr.push(ts.last()).len() implies #[trigger] get_result(
                m,
                fr.push(ts.last())[i],
                kind,
            ) is Ok by {
                if i < fr.len() {
                    assert(fr.push(ts.last())[i] == fr[i]);
                }
            }
        }
    }
}

/// An incremental listing gives exactly the records of the full listing whose
/// addresses the caller does not know, in the same relative order.
pub proof fn lemma_incremental_complement(
    m: Map<Seq<u8>, PayloadView>,
    edges: Seq<crate::index::EdgeView>,
    owner: Seq<u8>,
    tag: u8,
    kind: PayloadKind,
    known: Set<Seq<u8>>,
)
    requires
        list_all_result(m, edges, owner, tag, kind) is Ok,
    ensures
        list_incremental_result(m, edges, owner, tag, kind, known) == Ok::<Seq<RecordView>, StoreError>(
            unknown_records(list_all_result(m, edges, owner, tag, kind)->Ok_0, known),
        ),
{
    lemma_filter_then_resolve(m, targets_of(edges, owner, tag), kind, known);
}

proof fn lemma_unknown_within(ts: Seq<Seq<u8>>, known: Set<Seq<u8>>, s: Set<Seq<u8>>)
    requires
        forall|i: int| 0 <= i < ts.len() ==> s.contains(#[trigger] ts[i]),
    ensures
        unknown_targets(ts, known) == unknown_targets(ts, known.intersect(s)),
    decreases ts.len(),
{
    reveal(Seq::filter);
    if ts.len() > 0 {
        let rest = ts.drop_last();
        assert forall|i: int| 0 <= i < rest.len() implies s.contains(#[trigger] rest[i]) by {
            assert(rest[i] == ts[i]);
        }
        lemma_unknown_within(rest, known, s);
        assert(s.contains(ts[ts.len() - 1]));
    }
}

/// Addresses in `known` that no link of the owner points at change nothing:
/// the listing is the same as with only the known addresses that are linked.
pub proof fn lemma_unknown_input_tolerance(
    m: Map<Seq<u8>, PayloadView>,
    edges: Seq<crate::index::EdgeView>,
    owner: Seq<u8>,
    tag: u8,
    kind: PayloadKind,
    known: Set<Seq<u8>>,
)
    ensures
        list_incremental_result(m, edges, owner, tag, kind, known) == list_incremental_result(
            m,
            edges,
            owner,
            tag,
            kind,
            known.intersect(targets_of(edges, owner, tag).to_set()),
        ),
{
    let ts = targets_of(edges, owner, tag);
    assert forall|i: int| 0 <= i < ts.len() implies ts.to_set().contains(#[trigger] ts[i]) by {
        assert(ts.contains(ts[i]));
    }
    lemma_unknown_within(ts, known, ts.to_set());
}

} // verus!
