//! Requests for one batch: what is sent to the destination, and what is
//! acknowledged to the source afterwards.
//!
//! The entries of a request are tagged with ordinal ids `"0"`, `"1"`, ... in
//! batch order. The destination answers a send with the ids of the entries it
//! could not take; only the messages behind the other ids are acknowledged.

use crate::message::{DeleteEntry, DeleteEntryView, Message, MessageView, SendEntry, SendEntryView};
use crate::numeral::{decimal, lemma_decimal_injective, render};
use vstd::prelude::*;

verus! {

/// Whether every message of the batch carries a receipt handle.
pub open spec fn has_handles(batch: Seq<MessageView>) -> bool {
    forall|i: int| 0 <= i < batch.len() ==> (#[trigger] batch[i]).receipt_handle is Some
}

/// The receipt handles of the batch, in batch order.
pub open spec fn handles_of(batch: Seq<MessageView>) -> Seq<Seq<char>>
    recommends
        has_handles(batch),
{
    Seq::new(batch.len(), |i: int| batch[i].receipt_handle->0)
}

/// The send entry for the message at position `ordinal` of a batch: tagged
/// with the ordinal, carrying the message's body (empty when it has none) and
/// its attributes as they are.
pub open spec fn send_entry_of(ordinal: nat, message: MessageView) -> SendEntryView {
    SendEntryView {
        id: decimal(ordinal),
        body: match message.body {
            Some(body) => body,
            None => Seq::empty(),
        },
        attributes: message.attributes,
    }
}

/// The send request for a batch: one entry per message, in batch order.
pub open spec fn send_entries_of(batch: Seq<MessageView>) -> Seq<SendEntryView> {
    Seq::new(batch.len(), |i: int| send_entry_of(i as nat, batch[i]))
}

/// The delete request for a list of receipt handles: one entry per handle, in
/// order, tagged with its position.
pub open spec fn delete_entries_of(handles: Seq<Seq<char>>) -> Seq<DeleteEntryView> {
    Seq::new(
        handles.len(),
        |i: int| DeleteEntryView { id: decimal(i as nat), receipt_handle: handles[i] },
    )
}

/// The receipt handles to acknowledge after a send that reported the ids in
/// `failed`: the handle at each position whose ordinal id is not among them,
/// in batch order.
pub open spec fn acknowledged_of(handles: Seq<Seq<char>>, failed: Set<Seq<char>>) -> Seq<
    Seq<char>,
>
    decreases handles.len(),
{
    if handles.len() == 0 {
        Seq::empty()
    } else {
        let earlier = acknowledged_of(handles.drop_last(), failed);
        if failed.contains(decimal((handles.len() - 1) as nat)) {
            earlier
        } else {
            earlier.push(handles.last())
        }
    }
}

/// How many of the first `n` ordinal ids are not in `failed`.
pub open spec fn delivered_count(n: nat, failed: Set<Seq<char>>) -> nat
    decreases n,
{
    if n == 0 {
        0
    } else if failed.contains(decimal((n - 1) as nat)) {
        delivered_count((n - 1) as nat, failed)
    } else {
        delivered_count((n - 1) as nat, failed) + 1
    }
}

/// The ordinal ids of a batch of `n` messages.
pub open spec fn ordinal_ids(n: nat) -> Set<Seq<char>> {
    Set::new(|id: Seq<char>| exists|i: nat| i < n && id == #[trigger] decimal(i))
}

/// One handle is acknowledged for each ordinal id of the batch that was not
/// reported as failed.
pub proof fn lemma_acknowledged_len(handles: Seq<Seq<char>>, failed: Set<Seq<char>>)
    ensures
        acknowledged_of(handles, failed).len() == delivered_count(handles.len(), failed),
    decreases handles.len(),
{
    if handles.len() > 0 {
        lemma_acknowledged_len(handles.drop_last(), failed);
    }
}

/// The handle of a message whose ordinal id was not reported as failed is
/// acknowledged, at the position given by the number of delivered messages
/// before it.
pub proof fn lemma_acknowledged_at(handles: Seq<Seq<char>>, failed: Set<Seq<char>>, i: int)
    requires
        0 <= i < handles.len(),
        !failed.contains(decimal(i as nat)),
    ensures
        delivered_count(i as nat, failed) < acknowledged_of(handles, failed).len(),
        acknowledged_of(handles, failed)[delivered_count(i as nat, failed) as int] == handles[i],
    decreases handles.len(),
{
    let earlier = handles.drop_last();
    if i == handles.len() - 1 {
        lemma_acknowledged_len(earlier, failed);
    } else {
        lemma_acknowledged_at(earlier, failed, i);
    }
}

/// Every acknowledged handle is the handle of a message whose ordinal id was
/// not reported as failed; the position of that message is returned.
pub proof fn lemma_acknowledged_origin(
    handles: Seq<Seq<char>>,
    failed: Set<Seq<char>>,
    k: int,
) -> (i: int)
    requires
        0 <= k < acknowledged_of(handles, failed).len(),
    ensures
        0 <= i < handles.len(),
        !failed.contains(decimal(i as nat)),
        delivered_count(i as nat, failed) == k,
        acknowledged_of(handles, failed)[k] == handles[i],
    decreases handles.len(),
{
    let earlier = handles.drop_last();
    let last = handles.len() - 1;
    lemma_acknowledged_len(earlier, failed);
    if k < acknowledged_of(earlier, failed).len() {
        lemma_acknowledged_origin(earlier, failed, k)
    } else {
        last
    }
}

/// The count of delivered messages depends only on which ordinal ids of the
/// batch were reported as failed.
proof fn lemma_delivered_count_agrees(n: nat, a: Set<Seq<char>>, b: Set<Seq<char>>)
    requires
        forall|i: nat| i < n ==> a.contains(#[trigger] decimal(i)) == b.contains(decimal(i)),
    ensures
        delivered_count(n, a) == delivered_count(n, b),
    decreases n,
{
    if n > 0 {
        lemma_delivered_count_agrees((n - 1) as nat, a, b);
        assert(a.contains(decimal((n - 1) as nat)) == b.contains(decimal((n - 1) as nat)));
    }
}

/// When the ids reported as failed are ordinal ids of the batch, the
/// delivered and the failed messages together make up the batch.
pub proof fn lemma_delivered_count(n: nat, failed: Set<Seq<char>>)
    requires
        failed.finite(),
        failed.subset_of(ordinal_ids(n)),
    ensures
        delivered_count(n, failed) + failed.len() == n,
    decreases n,
{
    if n == 0 {
        assert forall|id: Seq<char>| !failed.contains(id) by {
            if failed.contains(id) {
                assert(ordinal_ids(n).contains(id));
            }
        }
        assert(failed =~= Set::empty());
    } else {
        let before = (n - 1) as nat;
        let last = decimal(before);
        let rest = failed.remove(last);
        assert forall|id: Seq<char>| rest.contains(id) implies ordinal_ids(before).contains(id) by {
            assert(ordinal_ids(n).contains(id));
            let i = choose|i: nat| i < n && id == #[trigger] decimal(i);
            assert(i != before);
        }
        assert forall|i: nat| i < before implies failed.contains(#[trigger] decimal(i))
            == rest.contains(decimal(i)) by {
            if decimal(i) == last {
                lemma_decimal_injective(i, before);
            }
        }
        lemma_delivered_count_agrees(before, failed, rest);
        lemma_delivered_count(before, rest);
        if !failed.contains(last) {
            assert(rest =~= failed);
        }
    }
}

/// Splits a batch into the receipt handles of its messages, in batch order.
///
/// Returns `None` when a message carries no receipt handle: such a message
/// could not be acknowledged.
pub fn receipt_handles(batch: Vec<Message>) -> (handles: Option<Vec<String>>)
    ensures
        handles is Some <==> has_handles(batch.deep_view()),
        handles matches Some(h) ==> h.deep_view() == handles_of(batch.deep_view()),
{
    let ghost all = batch.deep_view();
    let mut handles: Vec<String> = Vec::new();
    for message in it: batch.into_iter()
        invariant
            it.seq() == batch@,
            all == batch.deep_view(),
            handles.len() == it.index(),
            forall|k: int|
                0 <= k < it.index() ==> all[k].receipt_handle == Some(
                    (#[trigger] handles[k])@,
                ),
    {
        let ghost at = it.index();
        assert(all[at] == message@);
        match message.receipt_handle {
            Some(handle) => {
                handles.push(handle);
            },
            None => {
                assert(all[at].receipt_handle is None);
                return None;
            },
        }
    }
    assert forall|i: int| 0 <= i < all.len() implies (#[trigger] all[i]).receipt_handle is Some by {
        assert(all[i].receipt_handle == Some(handles[i]@));
    }
    assert(handles.deep_view() =~= handles_of(all));
    Some(handles)
}

/// Builds the send request for a batch and keeps the receipt handles aside.
///
/// Returns `None` when a message carries no receipt handle: nothing is to be
/// sent that could not be acknowledged afterwards.
pub fn forward_plan(batch: Vec<Message>) -> (plan: Option<(Vec<SendEntry>, Vec<String>)>)
    ensures
        plan is Some <==> has_handles(batch.deep_view()),
        plan matches Some((entries, handles)) ==> {
            &&& entries.deep_view() == send_entries_of(batch.deep_view())
            &&& handles.deep_view() == handles_of(batch.deep_view())
        },
{
    let ghost all = batch.deep_view();
    let mut entries: Vec<SendEntry> = Vec::new();
    let mut handles: Vec<String> = Vec::new();
    for message in it: batch.into_iter()
        invariant
            it.seq() == batch@,
            all == batch.deep_view(),
            handles.len() == it.index(),
            entries.len() == it.index(),
            forall|k: int|
                0 <= k < it.index() ==> all[k].receipt_handle == Some(
                    (#[trigger] handles[k])@,
                ),
            forall|k: int|
                0 <= k < it.index() ==> (#[trigger] entries[k])@ == send_entry_of(
                    k as nat,
                    all[k],
                ),
    {
        let ghost at = it.index();
        assert(all[at] == message@);
        let Message { body, receipt_handle, attributes } = message;
        let handle = match receipt_handle {
            Some(handle) => handle,
            None => {
                assert(all[at].receipt_handle is None);
                return None;
            },
        };
        let body = match body {
            Some(body) => body,
            None => String::new(),
        };
        let id = render(entries.len());
        entries.push(SendEntry { id, body, attributes });
        handles.push(handle);
    }
    assert forall|i: int| 0 <= i < all.len() implies (#[trigger] all[i]).receipt_handle is Some by {
        assert(all[i].receipt_handle == Some(handles[i]@));
    }
    assert(handles.deep_view() =~= handles_of(all));
    assert(entries.deep_view() =~= send_entries_of(all));
    Some((entries, handles))
}

/// Whether `id` is among `ids`.
fn contains_id(ids: &Vec<String>, id: &String) -> (found: bool)
    ensures
        found == ids.deep_view().to_set().contains(id@),
{
    let mut k: usize = 0;
    while k < ids.len()
        invariant
            k <= ids.len(),
            forall|j: int| 0 <= j < k ==> ids.deep_view()[j] != id@,
        decreases ids.len() - k,
    {
        if ids[k] == *id {
            assert(ids.deep_view()[k as int] == id@);
            return true;
        }
        k = k + 1;
    }
    false
}

/// Picks the receipt handles to acknowledge after a send.
///
/// `handles` are the receipt handles of the batch that was sent, in batch
/// order; `failed` are the ids that the destination reported as failed. The
/// result holds the handle of every other entry, in batch order. An id in
/// `failed` that is no ordinal id of the batch changes nothing.
pub fn acknowledged(handles: Vec<String>, failed: &Vec<String>) -> (kept: Vec<String>)
    ensures
        kept.deep_view() == acknowledged_of(handles.deep_view(), failed.deep_view().to_set()),
{
    let ghost all = handles.deep_view();
    let ghost failed_ids = failed.deep_view().to_set();
    let ghost count = handles.len();
    let mut kept: Vec<String> = Vec::new();
    let mut ordinal: usize = 0;
    for handle in it: handles.into_iter()
        invariant
            it.seq() == handles@,
            all == handles.deep_view(),
            failed_ids == failed.deep_view().to_set(),
            ordinal == it.index(),
            all.len() == count,
            kept.deep_view() == acknowledged_of(all.take(it.index()), failed_ids),
    {
        let ghost at = it.index();
        assert(at < all.len());
        assert(all[at] == handle@);
        assert(all.take(at + 1).drop_last() =~= all.take(at));
        assert(all.take(at + 1).last() == all[at]);
        let id = render(ordinal);
        let ghost before = kept.deep_view();
        if !contains_id(failed, &id) {
            kept.push(handle);
            assert(kept.deep_view() =~= before.push(all[at]));
        }
        ordinal = ordinal + 1;
    }
    assert(all.take(all.len() as int) =~= all);
    kept
}

/// Builds the delete request for a list of receipt handles.
pub fn delete_entries(handles: Vec<String>) -> (entries: Vec<DeleteEntry>)
    ensures
        entries.deep_view() == delete_entries_of(handles.deep_view()),
{
    let ghost all = handles.deep_view();
    let mut entries: Vec<DeleteEntry> = Vec::new();
    for handle in it: handles.into_iter()
        invariant
            it.seq() == handles@,
            all == handles.deep_view(),
            entries.len() == it.index(),
            forall|k: int|
                0 <= k < it.index() ==> (#[trigger] entries[k])@ == (DeleteEntryView {
                    id: decimal(k as nat),
                    receipt_handle: all[k],
                }),
    {
        let ghost at = it.index();
        assert(all[at] == handle@);
        let id = render(entries.len());
        entries.push(DeleteEntry { id, receipt_handle: handle });
    }
    assert(entries.deep_view() =~= delete_entries_of(all));
    entries
}

} // verus!
