//! Fetching the contents of the files of a tree: which requests to make, and what the
//! transfers that came back amount to. The transfers themselves are made by the caller;
//! each is independent of the others, and one that fails costs only its own file.

use vstd::prelude::*;
use crate::analysis::{file_views, labels_of_files, tally, types_of, FileContent};
use crate::rules::TypeRuleView;
use crate::tree::{entry_views, EntryKind, EntryView, TreeEntry};

verus! {

/// The header by which every request names its sender.
pub const USER_AGENT: &'static str = "rust-tool";

/// What the host answered to a request.
#[derive(Debug)]
pub struct HttpReply {
    pub status: u16,
    pub body: String,
}

/// How a request ended: with a reply of the host, or without one, for a reason that the
/// transport gave.
#[derive(Debug)]
pub enum Transfer {
    Reply(HttpReply),
    Failed(String),
}

/// Whether `status` is a status of success.
pub open spec fn is_success(status: u16) -> bool {
    200 <= status <= 299
}

/// Whether `status` is a status of success.
pub fn status_is_success(status: u16) -> (success: bool)
    ensures
        success == is_success(status),
{
    200 <= status && status <= 299
}

/// The request for the content of the file at `path`: the address to ask, and the header
/// by which the request names its sender.
#[derive(Debug)]
pub struct FetchRequest {
    pub path: String,
    pub url: String,
    pub user_agent: &'static str,
}

impl View for FetchRequest {
    type V = (Seq<char>, Seq<char>, Seq<char>);

    open spec fn view(&self) -> (Seq<char>, Seq<char>, Seq<char>) {
        (self.path@, self.url@, self.user_agent@)
    }
}

/// How the request for the content of the file at `path` ended.
#[derive(Debug)]
pub struct FetchResult {
    pub path: String,
    pub transfer: Transfer,
}

/// Why the content of a file is missing.
#[derive(Debug)]
pub enum LossReason {
    /// The entry carries no handle for its content.
    MissingContentRef,
    /// The host answered with a status other than success.
    Refused { status: u16, body: String },
    /// No answer came.
    Unreachable { message: String },
}

/// A reason as a plain value.
pub enum ReasonView {
    MissingContentRef,
    Refused { status: u16, body: Seq<char> },
    Unreachable { message: Seq<char> },
}

impl View for LossReason {
    type V = ReasonView;

    open spec fn view(&self) -> ReasonView {
        match self {
            LossReason::MissingContentRef => ReasonView::MissingContentRef,
            LossReason::Refused { status, body } => ReasonView::Refused { status: *status, body: body@ },
            LossReason::Unreachable { message } => ReasonView::Unreachable { message: message@ },
        }
    }
}

/// The record of a file whose content could not be had.
#[derive(Debug)]
pub struct ContentLoss {
    pub path: String,
    pub reason: LossReason,
}

impl View for ContentLoss {
    type V = (Seq<char>, ReasonView);

    open spec fn view(&self) -> (Seq<char>, ReasonView) {
        (self.path@, self.reason@)
    }
}

/// The requests to make for a tree, and the files for which none can be made.
#[derive(Debug)]
pub struct FetchPlan {
    pub requests: Vec<FetchRequest>,
    pub skipped: Vec<ContentLoss>,
}

/// The contents that were had, and the record of those that were not.
#[derive(Debug)]
pub struct ContentBatch {
    pub files: Vec<FileContent>,
    pub losses: Vec<ContentLoss>,
}

/// The plain values of a list of requests.
pub open spec fn request_views(requests: Seq<FetchRequest>) -> Seq<(Seq<char>, Seq<char>, Seq<char>)> {
    requests.map_values(|r: FetchRequest| r@)
}

/// The plain values of a list of losses.
pub open spec fn loss_views(losses: Seq<ContentLoss>) -> Seq<(Seq<char>, ReasonView)> {
    losses.map_values(|l: ContentLoss| l@)
}

/// What `pick` makes of the items that it picks, in the order of `items`.
pub open spec fn keep<A, B>(items: Seq<A>, pick: spec_fn(A) -> Option<B>) -> Seq<B>
    decreases items.len(),
{
    if items.len() == 0 {
        Seq::empty()
    } else {
        match pick(items.last()) {
            Some(kept) => keep(items.drop_last(), pick).push(kept),
            None => keep(items.drop_last(), pick),
        }
    }
}

/// The request for the content of `entry`: one for a file that carries a handle, as
/// (path, handle, sender), and none for any other entry.
pub open spec fn request_of(entry: EntryView) -> Option<(Seq<char>, Seq<char>, Seq<char>)> {
    if entry.kind == EntryKind::File && entry.content_ref is Some {
        Some((entry.path, entry.content_ref->0, USER_AGENT@))
    } else {
        None
    }
}

/// The record of `entry` as skipped: one for a file that carries no handle.
pub open spec fn skip_of(entry: EntryView) -> Option<(Seq<char>, ReasonView)> {
    if entry.kind == EntryKind::File && entry.content_ref is None {
        Some((entry.path, ReasonView::MissingContentRef))
    } else {
        None
    }
}

/// The requests for the files of `entries`, in the order of the entries.
pub open spec fn planned(entries: Seq<EntryView>) -> Seq<(Seq<char>, Seq<char>, Seq<char>)> {
    keep(entries, |e: EntryView| request_of(e))
}

/// The files of `entries` for which no request can be made, in the order of the entries.
pub open spec fn skipped(entries: Seq<EntryView>) -> Seq<(Seq<char>, ReasonView)> {
    keep(entries, |e: EntryView| skip_of(e))
}

/// Whether the transfer brought the content: a reply with a status of success.
pub open spec fn delivered(transfer: Transfer) -> bool {
    transfer matches Transfer::Reply(reply) && is_success(reply.status)
}

/// The content that `result` brought, as (path, text).
pub open spec fn content_of(result: FetchResult) -> Option<(Seq<char>, Seq<char>)> {
    match result.transfer {
        Transfer::Reply(reply) => if is_success(reply.status) {
            Some((result.path@, reply.body@))
        } else {
            None
        },
        Transfer::Failed(_) => None,
    }
}

/// The record of `result` as a loss: one for every transfer that did not bring the
/// content, with the status and body of the reply, or the reason that the transport gave.
pub open spec fn loss_of(result: FetchResult) -> Option<(Seq<char>, ReasonView)> {
    match result.transfer {
        Transfer::Reply(reply) => if is_success(reply.status) {
            None
        } else {
            Some((result.path@, ReasonView::Refused { status: reply.status, body: reply.body@ }))
        },
        Transfer::Failed(message) => Some(
            (result.path@, ReasonView::Unreachable { message: message@ }),
        ),
    }
}

/// The contents that `results` brought, in the order of the results.
pub open spec fn collected(results: Seq<FetchResult>) -> Seq<(Seq<char>, Seq<char>)> {
    keep(results, |r: FetchResult| content_of(r))
}

/// The losses among `results`, in the order of the results.
pub open spec fn lost(results: Seq<FetchResult>) -> Seq<(Seq<char>, ReasonView)> {
    keep(results, |r: FetchResult| loss_of(r))
}

/// An item that is not picked leaves no trace: what is kept is what would be kept
/// without it.
pub proof fn lemma_keep_without<A, B>(items: Seq<A>, pick: spec_fn(A) -> Option<B>, i: int)
    requires
        0 <= i < items.len(),
        pick(items[i]) is None,
    ensures
        keep(items, pick) == keep(items.remove(i), pick),
    decreases items.len(),
{
    if i == items.len() - 1 {
        assert(items.remove(i) == items.drop_last());
    } else {
        assert(items.remove(i).last() == items.last());
        assert(items.remove(i).drop_last() == items.drop_last().remove(i));
        lemma_keep_without(items.drop_last(), pick, i);
    }
}

/// Whatever is kept was picked from one of the items.
pub proof fn lemma_keep_origin<A, B>(items: Seq<A>, pick: spec_fn(A) -> Option<B>, k: int)
    requires
        0 <= k < keep(items, pick).len(),
    ensures
        exists|j: int| 0 <= j < items.len() && pick(#[trigger] items[j]) == Some(keep(items, pick)[k]),
    decreases items.len(),
{
    if items.len() > 0 {
        let rest = items.drop_last();
        if pick(items.last()) is Some && k == keep(rest, pick).len() {
            assert(pick(items[items.len() - 1]) == Some(keep(items, pick)[k]));
        } else {
            lemma_keep_origin(rest, pick, k);
            let j = choose|j: int| 0 <= j < rest.len() && pick(#[trigger] rest[j]) == Some(keep(rest, pick)[k]);
            assert(items[j] == rest[j]);
        }
    }
}

/// Every result is accounted for once: as a content that came or as a loss.
pub proof fn lemma_collected_or_lost(results: Seq<FetchResult>)
    ensures
        collected(results).len() + lost(results).len() == results.len(),
    decreases results.len(),
{
    if results.len() > 0 {
        lemma_collected_or_lost(results.drop_last());
    }
}

/// A failed fetch costs only its own file. If the transfer for one file did not bring
/// its content, the contents that were collected are those that would have been
/// collected had the file never been asked for; so are the per-type counts and the
/// project-type labels, which rest on the collected contents alone.
pub proof fn lemma_failed_fetch_leaves_no_trace(
    results: Seq<FetchResult>,
    failed: int,
    rules: Seq<TypeRuleView>,
)
    requires
        0 <= failed < results.len(),
        !delivered(results[failed].transfer),
    ensures
        collected(results) == collected(results.remove(failed)),
        tally(types_of(collected(results), rules)) == tally(
            types_of(collected(results.remove(failed)), rules),
        ),
        labels_of_files(collected(results), rules) == labels_of_files(
            collected(results.remove(failed)),
            rules,
        ),
        lost(results).len() == lost(results.remove(failed)).len() + 1,
{
    lemma_keep_without(results, |r: FetchResult| content_of(r), failed);
    lemma_collected_or_lost(results);
    lemma_collected_or_lost(results.remove(failed));
}

/// Whether no two results are for the same path.
pub open spec fn result_paths_distinct(results: Seq<FetchResult>) -> bool {
    forall|i: int, j: int|
        0 <= i < j < results.len() ==> (#[trigger] results[i]).path@ != (#[trigger] results[j]).path@
}

/// Where every file was asked for once, a file whose fetch failed is not among the
/// collected contents.
pub proof fn lemma_failed_fetch_is_excluded(results: Seq<FetchResult>, failed: int)
    requires
        0 <= failed < results.len(),
        !delivered(results[failed].transfer),
        result_paths_distinct(results),
    ensures
        forall|k: int|
            0 <= k < collected(results).len() ==> (#[trigger] collected(results)[k]).0
                != results[failed].path@,
{
    let pick = |r: FetchResult| content_of(r);
    assert forall|k: int| 0 <= k < collected(results).len() implies (#[trigger] collected(
        results,
    )[k]).0 != results[failed].path@ by {
        lemma_keep_origin(results, pick, k);
        let j = choose|j: int|
            0 <= j < results.len() && pick(#[trigger] results[j]) == Some(keep(results, pick)[k]);
        assert(j != failed);
        if j < failed {
            assert(results[j].path@ != results[failed].path@);
        } else {
            assert(results[failed].path@ != results[j].path@);
        }
    }
}

/// The requests to make for `entries`: one for each file that carries a content handle,
/// each under the sender's name. A file without a handle is skipped and recorded;
/// directories are passed over.
pub fn plan_fetch(entries: &[TreeEntry]) -> (plan: FetchPlan)
    ensures
        request_views(plan.requests@) == planned(entry_views(entries@)),
        loss_views(plan.skipped@) == skipped(entry_views(entries@)),
{
    let ghost all = entry_views(entries@);
    let mut requests: Vec<FetchRequest> = Vec::new();
    let mut skipped_files: Vec<ContentLoss> = Vec::new();
    let mut i: usize = 0;
    proof {
        assert(all.take(0) == Seq::<EntryView>::empty());
        assert(request_views(requests@) =~= Seq::<(Seq<char>, Seq<char>, Seq<char>)>::empty());
        assert(loss_views(skipped_files@) =~= Seq::<(Seq<char>, ReasonView)>::empty());
    }
    while i < entries.len()
        invariant
            i <= entries.len(),
            all == entry_views(entries@),
            request_views(requests@) == planned(all.take(i as int)),
            loss_views(skipped_files@) == skipped(all.take(i as int)),
        decreases entries.len() - i,
    {
        let entry = &entries[i];
        proof {
            let next = all.take(i as int + 1);
            assert(next.drop_last() == all.take(i as int));
            assert(next.last() == entry@);
        }
        match entry.kind() {
            EntryKind::File => match entry.content_ref() {
                Some(url) => {
                    let ghost before = request_views(requests@);
                    let request = FetchRequest {
                        path: entry.path().clone(),
                        url: url.clone(),
                        user_agent: USER_AGENT,
                    };
                    requests.push(request);
                    assert(request_views(requests@) =~= before.push(
                        (entry@.path, entry@.content_ref->0, USER_AGENT@),
                    ));
                },
                None => {
                    let ghost before = loss_views(skipped_files@);
                    let loss = ContentLoss {
                        path: entry.path().clone(),
                        reason: LossReason::MissingContentRef,
                    };
                    skipped_files.push(loss);
                    assert(loss_views(skipped_files@) =~= before.push(
                        (entry@.path, ReasonView::MissingContentRef),
                    ));
                },
            },
            EntryKind::Directory => {},
        }
        i += 1;
    }
    assert(all.take(i as int) == all);
    FetchPlan { requests, skipped: skipped_files }
}

/// What the transfers amount to: the content of every file whose transfer brought it,
/// and a record of every other. No result stops the collection.
pub fn collect_contents(results: Vec<FetchResult>) -> (batch: ContentBatch)
    ensures
        file_views(batch.files@) == collected(results@),
        loss_views(batch.losses@) == lost(results@),
{
    let mut files: Vec<FileContent> = Vec::new();
    let mut losses: Vec<ContentLoss> = Vec::new();
    let ghost all = results@;
    proof {
        assert(all.take(0) == Seq::<FetchResult>::empty());
        assert(file_views(files@) =~= Seq::<(Seq<char>, Seq<char>)>::empty());
        assert(loss_views(losses@) =~= Seq::<(Seq<char>, ReasonView)>::empty());
    }
    for result in it: results
        invariant
            it.seq() == all,
            file_views(files@) == collected(all.take(it.index())),
            loss_views(losses@) == lost(all.take(it.index())),
    {
        proof {
            let next = all.take(it.index() + 1);
            assert(next.drop_last() == all.take(it.index()));
            assert(next.last() == result);
        }
        let ghost files_before = file_views(files@);
        let ghost losses_before = loss_views(losses@);
        let FetchResult { path, transfer } = result;
        match transfer {
            Transfer::Reply(reply) => {
                if status_is_success(reply.status) {
                    files.push(FileContent { path, text: reply.body });
                    assert(file_views(files@) =~= files_before.push((path@, reply.body@)));
                } else {
                    let reason = LossReason::Refused { status: reply.status, body: reply.body };
                    losses.push(ContentLoss { path, reason });
                    assert(loss_views(losses@) =~= losses_before.push((path@, reason@)));
                }
            },
            Transfer::Failed(message) => {
                let reason = LossReason::Unreachable { message };
                losses.push(ContentLoss { path, reason });
                assert(loss_views(losses@) =~= losses_before.push((path@, reason@)));
            },
        }
    }
    assert(all.take(all.len() as int) == all);
    ContentBatch { files, losses }
}

} // verus!
