//! The event parser: extracts contract-instantiation mentions from the logs
//! of one raw transaction record.

use vstd::prelude::*;
use crate::records::{ContractDetails, ContractDetailsView, detail_views};

verus! {

/// One key/value attribute of a log event.  Keys need not be unique within
/// an event; the last occurrence of a key wins.
#[derive(Clone, Debug, PartialEq)]
pub struct EventAttribute {
    pub key: String,
    pub value: String,
}

/// One typed event emitted by a transaction log.
#[derive(Clone, Debug, PartialEq)]
pub struct TxEvent {
    pub event_type: String,
    pub attributes: Vec<EventAttribute>,
}

/// One log entry of a transaction: the events it emitted.
#[derive(Clone, Debug, PartialEq)]
pub struct TxLogEntry {
    pub events: Vec<TxEvent>,
}

/// The library's model of one raw transaction record: its logs.
#[derive(Clone, Debug, PartialEq)]
pub struct TxRecord {
    pub logs: Vec<TxLogEntry>,
}

/// The value of the last attribute named `key`, or the empty string when no
/// attribute carries that key.  Absent attributes are not an error: missing
/// keys yield empty fields by design.
pub open spec fn attr_value(attrs: Seq<EventAttribute>, key: Seq<char>) -> Seq<char>
    decreases attrs.len(),
{
    if attrs.len() == 0 {
        Seq::<char>::empty()
    } else if attrs.last().key@ == key {
        attrs.last().value@
    } else {
        attr_value(attrs.drop_last(), key)
    }
}

/// Whether an event carries the instantiation marker.
pub open spec fn is_instantiate_event(e: TxEvent) -> bool {
    e.event_type@ == "instantiate"@
}

/// The mention extracted from one instantiation event.
pub open spec fn mention_of_event(e: TxEvent) -> ContractDetailsView {
    ContractDetailsView {
        contract_address: attr_value(e.attributes@, "_contract_address"@),
        code_id: attr_value(e.attributes@, "code_id"@),
    }
}

/// The mentions extracted from a sequence of events, in order: one per
/// instantiation event, none for any other event.
pub open spec fn mentions_of_events(es: Seq<TxEvent>) -> Seq<ContractDetailsView>
    decreases es.len(),
{
    if es.len() == 0 {
        Seq::<ContractDetailsView>::empty()
    } else {
        mentions_of_events(es.drop_last()) + if is_instantiate_event(es.last()) {
            seq![mention_of_event(es.last())]
        } else {
            Seq::<ContractDetailsView>::empty()
        }
    }
}

/// The mentions extracted from a sequence of logs, flattened in order.
pub open spec fn mentions_of_logs(logs: Seq<TxLogEntry>) -> Seq<ContractDetailsView>
    decreases logs.len(),
{
    if logs.len() == 0 {
        Seq::<ContractDetailsView>::empty()
    } else {
        mentions_of_logs(logs.drop_last()) + mentions_of_events(logs.last().events@)
    }
}

/// All mentions of one transaction record.
pub open spec fn mentions_of_tx(tx: TxRecord) -> Seq<ContractDetailsView> {
    mentions_of_logs(tx.logs@)
}

/// Extracts one mention per instantiation event of the transaction's logs,
/// in log order.  Pure and total: malformed or incomplete events yield
/// mentions with empty fields, never an error.
pub fn parse_initialized_contract_tx_result(tx_response: &TxRecord) -> (r: Vec<ContractDetails>)
    ensures
        detail_views(r@) == mentions_of_tx(*tx_response),
{
    let mut out: Vec<ContractDetails> = Vec::new();
    let logs = &tx_response.logs;
    let mut li: usize = 0;
    while li < logs.len()
        invariant
            li <= logs.len(),
            detail_views(out@) == mentions_of_logs(logs@.take(li as int)),
        decreases logs.len() - li,
    {
        let events = &logs[li].events;
        let mut ei: usize = 0;
        while ei < events.len()
            invariant
                li < logs.len(),
                ei <= events.len(),
                events == &logs[li as int].events,
                detail_views(out@) == mentions_of_logs(logs@.take(li as int))
                    + mentions_of_events(events@.take(ei as int)),
        decreases events.len() - ei,
        {
            let ev = &events[ei];
            if ev.event_type == "instantiate".to_owned() {
                let mut contract_address = String::new();
                let mut code_id = String::new();
                let attrs = &ev.attributes;
                let mut ai: usize = 0;
                while ai < attrs.len()
                    invariant
                        ai <= attrs.len(),
                        contract_address@ == attr_value(
                            attrs@.take(ai as int),
                            "_contract_address"@,
                        ),
                        code_id@ == attr_value(attrs@.take(ai as int), "code_id"@),
                    decreases attrs.len() - ai,
                {
                    proof {
                        reveal_strlit("_contract_address");
                        reveal_strlit("code_id");
                        assert("_contract_address"@.len() == 17);
                        assert("code_id"@.len() == 7);
                    }
                    let attr = &attrs[ai];
                    if attr.key == "_contract_address".to_owned() {
                        contract_address = attr.value.clone();
                    } else if attr.key == "code_id".to_owned() {
                        code_id = attr.value.clone();
                    }
                    proof {
                        assert(attrs@.take(ai + 1).drop_last() =~= attrs@.take(ai as int));
                        assert(attrs@.take(ai + 1).last() == attrs@[ai as int]);
                    }
                    ai += 1;
                }
                proof {
                    assert(attrs@.take(attrs@.len() as int) =~= attrs@);
                }
                let mention = ContractDetails { contract_address, code_id };
                out.push(mention);
                proof {
                    assert(detail_views(out@) =~= mentions_of_logs(logs@.take(li as int))
                        + mentions_of_events(events@.take(ei as int))
                        + seq![mention_of_event(events@[ei as int])]);
                }
            }
            proof {
                assert(events@.take(ei + 1).drop_last() =~= events@.take(ei as int));
                assert(events@.take(ei + 1).last() == events@[ei as int]);
            }
            ei += 1;
        }
        proof {
            assert(events@.take(events@.len() as int) =~= events@);
            assert(logs@.take(li + 1).drop_last() =~= logs@.take(li as int));
            assert(logs@.take(li + 1).last() == logs@[li as int]);
        }
        li += 1;
    }
    proof {
        assert(logs@.take(logs@.len() as int) =~= logs@);
    }
    out
}

/// Projects the addresses out of a batch of mentions, keeping order and
/// duplicates: one address per mention.
pub fn contract_addresses(details: &Vec<ContractDetails>) -> (r: Vec<String>)
    ensures
        r@.len() == details@.len(),
        forall|i: int| 0 <= i < details@.len() ==> (#[trigger] r@[i])@
            == details@[i].contract_address@,
{
    let mut out: Vec<String> = Vec::new();
    let mut i: usize = 0;
    while i < details.len()
        invariant
            i <= details@.len(),
            out@.len() == i,
            forall|k: int| 0 <= k < i ==> (#[trigger] out@[k])@
                == details@[k].contract_address@,
        decreases details@.len() - i,
    {
        out.push(details[i].contract_address.clone());
        i += 1;
    }
    out
}

} // verus!
