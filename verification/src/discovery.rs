//! The discovery loop's decisions: which page to fetch next, when the scan
//! is exhausted, and how a resolved page is merged into the checkpoint.
//!
//! The loop itself is run outside the library: it fetches a page, hands the
//! transactions here, performs the metadata queries for the addresses it is
//! given back, hands the outcomes here, and persists the checkpoint that
//! results.  Every decision between those calls is made, and verified, here.

use vstd::prelude::*;
use crate::records::{CachedData, CachedDataView, ContractInfoDef, ContractInfoView};
use crate::resolver::ResolveError;
use crate::parser::{TxRecord, mentions_of_tx, parse_initialized_contract_tx_result, contract_addresses};

verus! {

/// How many transactions one page holds.
pub const PAGE_SIZE: u64 = 100;

/// How many pages a total-match count fills: the least number of pages that
/// holds `total` transactions at `PAGE_SIZE` each.
pub open spec fn spec_total_pages(total: u64) -> int {
    if total % PAGE_SIZE == 0 {
        (total / PAGE_SIZE) as int
    } else {
        total / PAGE_SIZE + 1
    }
}

/// One page request to the transaction-query service: the instantiation
/// filter, the page to fetch and the page size.
pub struct PageQuery {
    pub filter: String,
    pub page: u64,
    pub limit: u64,
}

/// The mentions of every transaction of a page, flattened in page order.
pub open spec fn mentions_of_page(txs: Seq<TxRecord>) -> Seq<
    crate::records::ContractDetailsView,
>
    decreases txs.len(),
{
    if txs.len() == 0 {
        Seq::empty()
    } else {
        mentions_of_page(txs.drop_last()) + mentions_of_tx(txs.last())
    }
}

/// The records of the successful resolutions of a batch, in batch order;
/// failed resolutions contribute nothing.
pub open spec fn successful_records(
    rs: Seq<Result<ContractInfoDef, ResolveError>>,
) -> Seq<ContractInfoView>
    decreases rs.len(),
{
    if rs.len() == 0 {
        Seq::empty()
    } else {
        successful_records(rs.drop_last()) + match rs.last() {
            Ok(info) => seq![info@],
            Err(_) => Seq::<ContractInfoView>::empty(),
        }
    }
}

/// The checkpoint that merging one resolved page into `c` produces: the
/// page counter moves to the merged page, and the page's successful records
/// are appended after everything already accumulated.
pub open spec fn merged_checkpoint(
    c: CachedDataView,
    page: u64,
    rs: Seq<Result<ContractInfoDef, ResolveError>>,
) -> CachedDataView {
    CachedDataView { last_page: page, data: c.data + successful_records(rs) }
}

/// Monotonic checkpoint: merging a page that lies strictly beyond the pages
/// already completed strictly increases the persisted page counter, and the
/// merged checkpoint still carries every record accumulated before, in
/// place, with the page's records after them.
pub proof fn lemma_checkpoint_monotonic(
    c: CachedDataView,
    page: u64,
    rs: Seq<Result<ContractInfoDef, ResolveError>>,
)
    requires
        c.last_page < page,
    ensures
        merged_checkpoint(c, page, rs).last_page > c.last_page,
        merged_checkpoint(c, page, rs).data.len() >= c.data.len(),
        c.data.is_prefix_of(merged_checkpoint(c, page, rs).data),
{
    assert(c.data.is_prefix_of(c.data + successful_records(rs)));
}


/// The checkpoint that a whole run of page merges produces, merging each
/// page's resolved batch in order.
pub open spec fn merged_run(
    c: CachedDataView,
    batches: Seq<(u64, Seq<Result<ContractInfoDef, ResolveError>>)>,
) -> CachedDataView
    decreases batches.len(),
{
    if batches.len() == 0 {
        c
    } else {
        merged_checkpoint(
            merged_run(c, batches.drop_last()),
            batches.last().0,
            batches.last().1,
        )
    }
}

/// One more merged page extends the run by one `merged_checkpoint` step.
proof fn lemma_run_step(
    c: CachedDataView,
    batches: Seq<(u64, Seq<Result<ContractInfoDef, ResolveError>>)>,
    i: int,
)
    requires
        0 <= i < batches.len(),
    ensures
        merged_run(c, batches.take(i + 1)) == merged_checkpoint(
            merged_run(c, batches.take(i)),
            batches[i].0,
            batches[i].1,
        ),
{
    assert(batches.take(i + 1).drop_last() =~= batches.take(i));
    assert(batches.take(i + 1).last() == batches[i]);
}

/// Everything accumulated through any point of a run stays, in place, in
/// the checkpoint the whole run produces.
proof fn lemma_run_prefix(
    c: CachedDataView,
    batches: Seq<(u64, Seq<Result<ContractInfoDef, ResolveError>>)>,
    i: int,
)
    requires
        0 <= i <= batches.len(),
    ensures
        merged_run(c, batches.take(i)).data.is_prefix_of(merged_run(c, batches).data),
    decreases batches.len() - i,
{
    if i == batches.len() {
        assert(batches.take(i) =~= batches);
        let data = merged_run(c, batches).data;
        assert(data.take(data.len() as int) =~= data);
    } else {
        lemma_run_step(c, batches, i);
        lemma_run_prefix(c, batches, i + 1);
        let a = merged_run(c, batches.take(i)).data;
        let b = merged_run(c, batches.take(i + 1)).data;
        let whole = merged_run(c, batches).data;
        assert(b.take(a.len() as int) =~= a);
        assert(whole.take(b.len() as int).take(a.len() as int) =~= whole.take(
            a.len() as int,
        ));
    }
}

/// Monotonic checkpoint over a whole run: for any sequence of successfully
/// merged pages — each page lying strictly beyond the one before, the first
/// strictly beyond the loaded checkpoint — the persisted page counter is
/// strictly increasing from write to write, and every write carries all
/// records merged through that page: each checkpoint of the run is a prefix
/// of every later one.
pub proof fn lemma_run_monotonic(
    c: CachedDataView,
    batches: Seq<(u64, Seq<Result<ContractInfoDef, ResolveError>>)>,
)
    requires
        batches.len() > 0 ==> c.last_page < batches[0].0,
        forall|i: int| 0 <= i < batches.len() - 1 ==> (#[trigger] batches[i]).0 < batches[
            i + 1
        ].0,
    ensures
        forall|i: int|
            0 <= i < batches.len() ==> merged_run(c, #[trigger] batches.take(i)).last_page
                < merged_run(c, batches.take(i + 1)).last_page,
        forall|i: int|
            0 <= i <= batches.len() ==> (#[trigger] merged_run(
                c,
                batches.take(i),
            )).data.is_prefix_of(merged_run(c, batches).data),
{
    assert forall|i: int|
        0 <= i < batches.len() implies merged_run(c, #[trigger] batches.take(i)).last_page
        < merged_run(c, batches.take(i + 1)).last_page by {
        lemma_run_step(c, batches, i);
        if i > 0 {
            lemma_run_step(c, batches, i - 1);
            assert(merged_run(c, batches.take(i)).last_page == batches[i - 1].0);
        }
    }
    assert forall|i: int|
        0 <= i <= batches.len() implies (#[trigger] merged_run(
        c,
        batches.take(i),
    )).data.is_prefix_of(merged_run(c, batches).data) by {
        lemma_run_prefix(c, batches, i);
    }
}

/// One run's scan in progress: the checkpoint as it will next be persisted,
/// the page the loop is at, and whether the scan is exhausted.
pub struct DiscoverySession {
    pub checkpoint: CachedData,
    pub current_page: u64,
    pub finished: bool,
}

impl DiscoverySession {
    /// The pages already merged never lie beyond the page the loop is at.
    pub open spec fn wf(self) -> bool {
        self.checkpoint.last_page <= self.current_page
    }

    /// Starts (or resumes) a scan from a loaded checkpoint.  Resumption is
    /// idempotent: the checkpoint is taken as it was loaded — nothing is
    /// lost, nothing re-done — and the loop continues at its `last_page`.
    pub fn begin(checkpoint: CachedData) -> (s: DiscoverySession)
        ensures
            s.checkpoint@ == checkpoint@,
            s.current_page == checkpoint.last_page,
            !s.finished,
            s.wf(),
    {
        let current_page = checkpoint.last_page;
        DiscoverySession { checkpoint, current_page, finished: false }
    }

    /// The request for the page the loop is at: the instantiation-event
    /// filter, verbatim, with the fixed page size.
    pub fn next_page_request(&self) -> (q: PageQuery)
        ensures
            q.filter@ == "message.action='/cosmwasm.wasm.v1.MsgInstantiateContract'"@,
            q.page == self.current_page,
            q.limit == PAGE_SIZE,
    {
        PageQuery {
            filter: "message.action='/cosmwasm.wasm.v1.MsgInstantiateContract'".to_owned(),
            page: self.current_page,
            limit: PAGE_SIZE,
        }
    }

    /// Takes one fetched page and decides: an empty page exhausts the scan
    /// and leaves the checkpoint untouched; otherwise the loop advances one
    /// page, the scan is exhausted once the advanced page reaches the page
    /// count that the reported total fills, and the addresses mentioned by
    /// the page's instantiation events are returned for resolution, in
    /// order, duplicates kept.
    pub fn on_page(&mut self, txs: &Vec<TxRecord>, total: u64) -> (addresses: Option<
        Vec<String>,
    >)
        requires
            old(self).wf(),
            !old(self).finished,
            old(self).current_page < u64::MAX,
        ensures
            final(self).checkpoint@ == old(self).checkpoint@,
            txs@.len() == 0 ==> final(self).finished && addresses is None
                && final(self).current_page == old(self).current_page,
            txs@.len() > 0 ==> {
                &&& final(self).current_page == old(self).current_page + 1
                &&& final(self).finished == !(final(self).current_page
                    < spec_total_pages(total))
                &&& addresses matches Some(a) && a@.len() == mentions_of_page(txs@).len()
                &&& forall|i: int|
                    0 <= i < mentions_of_page(txs@).len()
                        ==> (#[trigger] addresses.unwrap()@[i])@ == mentions_of_page(
                        txs@,
                    )[i].contract_address
            },
            final(self).wf(),
    {
        if txs.len() == 0 {
            self.finished = true;
            return None;
        }
        self.current_page = self.current_page + 1;
        let total_pages = total / PAGE_SIZE + if total % PAGE_SIZE == 0 {
            0
        } else {
            1
        };
        self.finished = !(self.current_page < total_pages);
        let ghost mid = *self;
        let mut mentions: Vec<crate::records::ContractDetails> = Vec::new();
        let mut ti: usize = 0;
        while ti < txs.len()
            invariant
                *self == mid,
                ti <= txs@.len(),
                crate::records::detail_views(mentions@) == mentions_of_page(
                    txs@.take(ti as int),
                ),
            decreases txs@.len() - ti,
        {
            let one = parse_initialized_contract_tx_result(&txs[ti]);
            let ghost onev = one@;
            proof {
                assert(txs@.take(ti + 1).drop_last() =~= txs@.take(ti as int));
                assert(txs@.take(ti + 1).last() == txs@[ti as int]);
            }
            let ghost before = mentions@;
            append_details(&mut mentions, one);
            proof {
                assert(crate::records::detail_views(mentions@) =~= crate::records::detail_views(
                    before,
                ) + crate::records::detail_views(onev));
            }
            ti += 1;
        }
        proof {
            assert(txs@.take(txs@.len() as int) =~= txs@);
        }
        Some(contract_addresses(&mentions))
    }

    /// Merges the resolved page into the checkpoint: every successful
    /// resolution's record is appended, in batch order, failures are
    /// dropped, and the page counter moves — strictly forward — to the page
    /// just processed.  The caller persists the checkpoint before fetching
    /// further.
    pub fn on_resolved(&mut self, results: Vec<Result<ContractInfoDef, ResolveError>>)
        requires
            old(self).wf(),
            old(self).checkpoint.last_page < old(self).current_page,
        ensures
            final(self).checkpoint@ == merged_checkpoint(
                old(self).checkpoint@,
                old(self).current_page,
                results@,
            ),
            final(self).checkpoint.last_page > old(self).checkpoint.last_page,
            final(self).current_page == old(self).current_page,
            final(self).finished == old(self).finished,
            final(self).wf(),
    {
        let mut rest = results;
        let ghost all = rest@;
        let ghost before = self.checkpoint@.data;
        proof {
            assert(rest@.skip(0) =~= rest@);
            assert(successful_records(all.take(0)) =~= Seq::<ContractInfoView>::empty());
            assert(before + successful_records(all.take(0)) =~= before);
        }
        let mut taken: usize = 0;
        let bound = rest.len();
        proof {
            assert(all.len() == bound);
        }
        while rest.len() > 0
            invariant
                all == results@,
                before == old(self).checkpoint@.data,
                all.len() <= usize::MAX,
                taken + rest@.len() == all.len(),
                rest@ == all.skip(taken as int),
                crate::records::info_views(self.checkpoint.data@) == before
                    + successful_records(all.take(taken as int)),
                self.checkpoint.last_page == old(self).checkpoint.last_page,
                self.current_page == old(self).current_page,
                self.finished == old(self).finished,
            decreases rest@.len(),
        {
            let ghost m = taken as int;
            let next = rest.remove(0);
            proof {
                assert(next == all.skip(m)[0]);
                assert(all.skip(m)[0] == all[m]);
                assert(rest@ =~= all.skip(m).skip(1));
                assert(all.skip(m).skip(1) =~= all.skip(m + 1));
                assert(all.take(m + 1).drop_last() =~= all.take(m));
                assert(all.take(m + 1).last() == all[m]);
            }
            let ghost data_before = self.checkpoint.data@;
            match next {
                Ok(info) => {
                    let ghost infov = info@;
                    self.checkpoint.data.push(info);
                    proof {
                        assert(successful_records(all.take(m + 1)) =~= successful_records(
                            all.take(m),
                        ) + seq![infov]);
                        assert(crate::records::info_views(self.checkpoint.data@)
                            =~= crate::records::info_views(data_before) + seq![infov]);
                        assert(before + successful_records(all.take(m + 1)) =~= (before
                            + successful_records(all.take(m))) + seq![infov]);
                    }
                },
                Err(_) => {
                    proof {
                        assert(successful_records(all.take(m + 1)) =~= successful_records(
                            all.take(m),
                        ));
                    }
                },
            }
            taken += 1;
        }
        proof {
            assert(all.take(all.len() as int) =~= all);
        }
        self.checkpoint.last_page = self.current_page;
    }

    /// Whether the loop still has a page to fetch.
    pub fn has_more(&self) -> (r: bool)
        ensures
            r == !self.finished,
    {
        !self.finished
    }
}

/// Moves every mention of `extra` to the end of `acc`, keeping order.
fn append_details(
    acc: &mut Vec<crate::records::ContractDetails>,
    extra: Vec<crate::records::ContractDetails>,
)
    ensures
        final(acc)@ == old(acc)@ + extra@,
{
    let mut rest = extra;
    let ghost all = rest@;
    let ghost start = old(acc)@;
    proof {
        assert(rest@.skip(0) =~= rest@);
        assert(start + all.take(0) =~= start);
    }
    let mut taken: usize = 0;
    let bound = rest.len();
    proof {
        assert(all.len() == bound);
    }
    while rest.len() > 0
        invariant
            all.len() <= usize::MAX,
            taken + rest@.len() == all.len(),
            rest@ == all.skip(taken as int),
            acc@ == start + all.take(taken as int),
        decreases rest@.len(),
    {
        let ghost m = taken as int;
        let next = rest.remove(0);
        proof {
            assert(next == all.skip(m)[0]);
            assert(all.skip(m)[0] == all[m]);
            assert(rest@ =~= all.skip(m).skip(1));
            assert(all.skip(m).skip(1) =~= all.skip(m + 1));
            assert(start + all.take(m + 1) =~= (start + all.take(m)).push(all[m]));
        }
        acc.push(next);
        taken += 1;
    }
    proof {
        assert(all.take(all.len() as int) =~= all);
    }
}

} // verus!
