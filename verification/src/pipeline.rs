//! The analysis of one repository as a sequence of decisions. The caller does the work
//! that reaches outside (it sends the requests, decodes the listing) and hands back what
//! came of it; `step` decides from the state and that event what to do next.

use vstd::prelude::*;
use crate::analysis::{aggregate, labels_of_files, distinct, tally, types_of, AggregateReport};
use crate::combine::combined_type;
use crate::fetch::{
    collect_contents, collected, is_success, loss_views, lost, plan_fetch, planned, request_views,
    skipped, status_is_success, ContentLoss, FetchRequest, FetchResult, Transfer, USER_AGENT,
};
use crate::locator::{extract_owner_repo, repository_of};
use crate::render::{lines_of, render_tree};
use crate::rules::{FileMappings, TypeRuleView};
use crate::text::{text_of, views};
use crate::tree::{entries_of, GitTree};

verus! {

/// The text of the member `key` of the JSON object that the text `document` holds, where
/// `document` is such an object and the member is a JSON string.
pub uninterp spec fn json_text_member(document: Seq<char>, key: Seq<char>) -> Option<Seq<char>>;

/// Reads `document` with `serde_json::from_str` as a `serde_json::Value`, looks the member
/// `key` up in it with `Value::get` and takes its text with `Value::as_str`. The result
/// is `None` where the text is no JSON document, where the document is no object or has
/// no such member, and where the member is no string; else it is the member's text. It
/// depends on the two arguments only.
#[verifier::external_body]
fn text_member(document: &str, key: &str) -> (found: Option<String>)
    ensures
        text_of(found) == json_text_member(document@, key@),
{
    let value: serde_json::Value = serde_json::from_str(document).ok()?;
    Some(value.get(key)?.as_str()?.to_owned())
}

/// The branch to take the tree from: the default branch that the repository names, and
/// `main` where it names none.
pub open spec fn branch_or_main(named: Option<Seq<char>>) -> Seq<char> {
    match named {
        Some(branch) => branch,
        None => "main"@,
    }
}

/// The default branch according to the description `info` of a repository: the text of
/// its member `default_branch`, and `main` where that cannot be read.
pub open spec fn default_branch_of(info: Seq<char>) -> Seq<char> {
    branch_or_main(json_text_member(info, "default_branch"@))
}

/// The branch to take the tree from, given the default branch that the repository names.
pub fn choose_branch(named: Option<String>) -> (branch: String)
    ensures
        branch@ == branch_or_main(text_of(named)),
{
    match named {
        Some(branch) => branch,
        None => "main".to_owned(),
    }
}

/// The default branch according to the description `info` of a repository.
pub fn default_branch(info: &str) -> (branch: String)
    ensures
        branch@ == default_branch_of(info@),
{
    choose_branch(text_member(info, "default_branch"))
}

/// The address of the description of the repository `name` of `owner`.
pub open spec fn repository_url(owner: Seq<char>, name: Seq<char>) -> Seq<char> {
    "https://api.github.com/repos/"@ + owner + "/"@ + name
}

/// The address of the recursive tree listing of `branch`.
pub open spec fn tree_url(owner: Seq<char>, name: Seq<char>, branch: Seq<char>) -> Seq<char> {
    repository_url(owner, name) + "/git/trees/"@ + branch + "?recursive=1"@
}

/// The address of the description of the repository `name` of `owner`.
pub fn repository_address(owner: &str, name: &str) -> (url: String)
    ensures
        url@ == repository_url(owner@, name@),
{
    let mut url = "https://api.github.com/repos/".to_owned();
    url.append(owner);
    url.append("/");
    url.append(name);
    url
}

/// The address of the recursive tree listing of `branch`.
pub fn tree_address(owner: &str, name: &str, branch: &str) -> (url: String)
    ensures
        url@ == tree_url(owner@, name@, branch@),
{
    let mut url = repository_address(owner, name);
    url.append("/git/trees/");
    url.append(branch);
    url.append("?recursive=1");
    url
}

/// The requests to the host that an analysis makes before it fetches contents.
#[derive(Debug, Clone, Copy, PartialEq, Eq, Structural)]
pub enum Step {
    RepositoryInfo,
    TreeListing,
}

/// Why an analysis was given up.
#[derive(Debug)]
pub enum AnalysisError {
    /// The address names no repository.
    MalformedInput,
    /// The host did not deliver: it answered with `status` and `message` as the body, or
    /// it gave no usable answer, and `message` says why.
    UpstreamUnavailable { step: Step, status: Option<u16>, message: String },
    /// The event is not the one that the analysis was waiting for.
    OutOfTurn,
}

/// How far an analysis has come.
#[derive(Debug)]
pub enum State {
    /// Nothing has happened yet.
    Idle,
    /// The description of the repository has been asked for.
    AwaitingRepository { owner: String, name: String },
    /// The tree listing has been asked for.
    AwaitingTree,
    /// The tree listing has come and is being decoded.
    AwaitingListing,
    /// The contents of the files have been asked for.
    AwaitingContents { skipped: Vec<ContentLoss> },
    /// The analysis is over.
    Done,
}

/// What the caller reports back.
#[derive(Debug)]
pub enum Event {
    /// The user gave the address of a repository.
    Address(String),
    /// The request of the last `Get` ended.
    Transfer(Transfer),
    /// The body of the last `Decode` was decoded, or could not be, for the reason given.
    Listing(Result<GitTree, String>),
    /// The requests of the last `Fetch` ended, each as recorded.
    Contents(Vec<FetchResult>),
}

/// What the caller is to do next.
#[derive(Debug)]
pub enum Action {
    /// Request `url` under the sender's name `user_agent` and report the transfer.
    Get { url: String, user_agent: &'static str },
    /// Decode `body` as a tree listing and report the listing.
    Decode { body: String },
    /// Show the tree in `lines`, make `requests` and report the results.
    Fetch { lines: Vec<String>, requests: Vec<FetchRequest> },
    /// Show the report. The analysis is over; `losses` records the files whose content
    /// is missing from it.
    Report { report: AggregateReport, losses: Vec<ContentLoss> },
    /// Say why the analysis ends here.
    Abort(AnalysisError),
}

/// Whether `action` gives the analysis up because the host did not deliver at `step`.
pub open spec fn gives_up(
    next: State,
    action: Action,
    step: Step,
    status: Option<u16>,
    message: Seq<char>,
) -> bool {
    &&& next is Done
    &&& action matches Action::Abort(AnalysisError::UpstreamUnavailable { step: s, status: c, message: m })
    &&& s == step
    &&& c == status
    &&& m@ == message
}

/// The first decision: an address that names a repository has its description asked
/// for, under the sender's name as every request; any other ends the analysis.
pub open spec fn begins(address: Seq<char>, next: State, action: Action) -> bool {
    match repository_of(address) {
        Some((owner, name)) => {
            &&& next matches State::AwaitingRepository { owner: o, name: n }
            &&& o@ == owner
            &&& n@ == name
            &&& action matches Action::Get { url, user_agent }
            &&& url@ == repository_url(owner, name)
            &&& user_agent@ == USER_AGENT@
        },
        None => next is Done && action matches Action::Abort(AnalysisError::MalformedInput),
    }
}

/// The decision on the description of the repository: on success the tree of its default
/// branch is asked for; a refusal or a failed transfer ends the analysis.
pub open spec fn on_repository(
    owner: Seq<char>,
    name: Seq<char>,
    transfer: Transfer,
    next: State,
    action: Action,
) -> bool {
    match transfer {
        Transfer::Reply(reply) => if is_success(reply.status) {
            &&& next is AwaitingTree
            &&& action matches Action::Get { url, user_agent }
            &&& url@ == tree_url(owner, name, default_branch_of(reply.body@))
            &&& user_agent@ == USER_AGENT@
        } else {
            gives_up(next, action, Step::RepositoryInfo, Some(reply.status), reply.body@)
        },
        Transfer::Failed(message) => gives_up(next, action, Step::RepositoryInfo, None, message@),
    }
}

/// The decision on the tree listing: on success its body is to be decoded; a refusal or
/// a failed transfer ends the analysis.
pub open spec fn on_tree(transfer: Transfer, next: State, action: Action) -> bool {
    match transfer {
        Transfer::Reply(reply) => if is_success(reply.status) {
            &&& next is AwaitingListing
            &&& action matches Action::Decode { body }
            &&& body@ == reply.body@
        } else {
            gives_up(next, action, Step::TreeListing, Some(reply.status), reply.body@)
        },
        Transfer::Failed(message) => gives_up(next, action, Step::TreeListing, None, message@),
    }
}

/// The decision on the decoded listing: the tree is shown and the content of every file
/// that carries a handle is asked for; the files that carry none are kept as skipped. A
/// listing that could not be decoded ends the analysis.
pub open spec fn on_listing(listing: Result<GitTree, String>, next: State, action: Action) -> bool {
    match listing {
        Ok(tree) => {
            &&& next matches State::AwaitingContents { skipped: kept }
            &&& loss_views(kept@) == skipped(entries_of(tree.tree@))
            &&& action matches Action::Fetch { lines, requests }
            &&& views(lines@) == lines_of(entries_of(tree.tree@), 0)
            &&& request_views(requests@) == planned(entries_of(tree.tree@))
        },
        Err(message) => gives_up(next, action, Step::TreeListing, None, message@),
    }
}

/// The last decision: the report on the contents that came, with the record of those
/// that did not: the files that were skipped, then the transfers that failed.
pub open spec fn on_contents(
    kept: Seq<ContentLoss>,
    results: Seq<FetchResult>,
    rules: Seq<TypeRuleView>,
    next: State,
    action: Action,
) -> bool {
    &&& next is Done
    &&& action matches Action::Report { report, losses }
    &&& report.per_type_counts@ == tally(types_of(collected(results), rules))
    &&& report.per_type_counts.total() == collected(results).len()
    &&& views(report.detected_project_types@) == distinct(labels_of_files(collected(results), rules))
    &&& report.combined_project_type@ == combined_type(views(report.detected_project_types@))
    &&& loss_views(losses@) == loss_views(kept) + lost(results)
}

/// What `step` decides: for each state, the decision on the event that the state waits
/// for; any other event ends the analysis as out of turn.
pub open spec fn decides(
    state: State,
    event: Event,
    rules: Seq<TypeRuleView>,
    next: State,
    action: Action,
) -> bool {
    match (state, event) {
        (State::Idle, Event::Address(address)) => begins(address@, next, action),
        (State::AwaitingRepository { owner, name }, Event::Transfer(transfer)) => on_repository(
            owner@,
            name@,
            transfer,
            next,
            action,
        ),
        (State::AwaitingTree, Event::Transfer(transfer)) => on_tree(transfer, next, action),
        (State::AwaitingListing, Event::Listing(listing)) => on_listing(listing, next, action),
        (State::AwaitingContents { skipped: kept }, Event::Contents(results)) => on_contents(
            kept@,
            results@,
            rules,
            next,
            action,
        ),
        _ => next is Done && action matches Action::Abort(AnalysisError::OutOfTurn),
    }
}

/// The end of an analysis to which the host did not deliver at `step`.
fn give_up(step: Step, status: Option<u16>, message: String) -> (decision: (State, Action))
    ensures
        gives_up(decision.0, decision.1, step, status, message@),
{
    (State::Done, Action::Abort(AnalysisError::UpstreamUnavailable { step, status, message }))
}

/// The next state of the analysis and the action to take, given the state it is in and
/// what the caller reports.
pub fn step(state: State, event: Event, mappings: &FileMappings) -> (decision: (State, Action))
    ensures
        decides(state, event, mappings@, decision.0, decision.1),
{
    match (state, event) {
        (State::Idle, Event::Address(address)) => match extract_owner_repo(address.as_str()) {
            Ok((owner, name)) => {
                let url = repository_address(owner.as_str(), name.as_str());
                (State::AwaitingRepository { owner, name }, Action::Get { url, user_agent: USER_AGENT })
            },
            Err(_) => (State::Done, Action::Abort(AnalysisError::MalformedInput)),
        },
        (State::AwaitingRepository { owner, name }, Event::Transfer(transfer)) => match transfer {
            Transfer::Reply(reply) => if status_is_success(reply.status) {
                let branch = default_branch(reply.body.as_str());
                let url = tree_address(owner.as_str(), name.as_str(), branch.as_str());
                (State::AwaitingTree, Action::Get { url, user_agent: USER_AGENT })
            } else {
                give_up(Step::RepositoryInfo, Some(reply.status), reply.body)
            },
            Transfer::Failed(message) => give_up(Step::RepositoryInfo, None, message),
        },
        (State::AwaitingTree, Event::Transfer(transfer)) => match transfer {
            Transfer::Reply(reply) => if status_is_success(reply.status) {
                (State::AwaitingListing, Action::Decode { body: reply.body })
            } else {
                give_up(Step::TreeListing, Some(reply.status), reply.body)
            },
            Transfer::Failed(message) => give_up(Step::TreeListing, None, message),
        },
        (State::AwaitingListing, Event::Listing(listing)) => match listing {
            Ok(tree) => {
                let entries = tree.entries();
                let plan = plan_fetch(entries.as_slice());
                let lines = render_tree(entries.as_slice(), 0);
                (
                    State::AwaitingContents { skipped: plan.skipped },
                    Action::Fetch { lines, requests: plan.requests },
                )
            },
            Err(message) => give_up(Step::TreeListing, None, message),
        },
        (State::AwaitingContents { skipped: kept }, Event::Contents(results)) => {
            let batch = collect_contents(results);
            let report = aggregate(batch.files.as_slice(), mappings);
            let mut losses = kept;
            let mut failed = batch.losses;
            let ghost first = loss_views(losses@);
            let ghost second = loss_views(failed@);
            losses.append(&mut failed);
            assert(loss_views(losses@) =~= first + second);
            (State::Done, Action::Report { report, losses })
        },
        _ => (State::Done, Action::Abort(AnalysisError::OutOfTurn)),
    }
}

} // verus!
