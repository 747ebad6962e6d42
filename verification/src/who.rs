//! Who is playing what: the sessions, read back from the container engine's
//! list of running containers.
//!
//! Nothing is stored. A session is what a container's labels say, and the
//! list is rebuilt from the engine's listing each time.

use crate::args::{OutputFormat, WhoArgs};
use crate::config::{CommandLine, CommandLineView};
use crate::error::{DoorError, DoorErrorView};
use crate::json::{
    json_text, lemma_items_view, lemma_members_view, opt_json_view, parsed, value_of, yaml_text,
    Json, JsonView,
};
use crate::text::{
    after_first, before_first, decimal, decode_text, find_last, format_integer, join_text,
    last_value, lines, opt_view, pairs, parse_i8, parse_small, pieces, spec_lines, split,
    split_once, views,
};
use vstd::prelude::*;
use vstd::utf8::{decode_utf8, valid_utf8};

verus! {

/// A running session.
#[derive(Debug, Clone, PartialEq, Eq)]
pub struct WhoNode {
    pub container_id: String,
    pub user: String,
    pub door: String,
    /// The node that is played on; `None` for maintenance.
    pub node: Option<i8>,
    /// The maintenance operation; `None` for play.
    pub command: Option<String>,
    /// When the container was created, in seconds since 1970.
    pub since: i64,
}

/// The mathematical value of a `WhoNode`.
pub struct WhoNodeView {
    pub container_id: Seq<char>,
    pub user: Seq<char>,
    pub door: Seq<char>,
    pub node: Option<i8>,
    pub command: Option<Seq<char>>,
    pub since: i64,
}

impl View for WhoNode {
    type V = WhoNodeView;

    open spec fn view(&self) -> WhoNodeView {
        WhoNodeView {
            container_id: self.container_id@,
            user: self.user@,
            door: self.door@,
            node: self.node,
            command: opt_view(self.command),
            since: self.since,
        }
    }
}

/// The values of a list of sessions.
pub open spec fn node_views(nodes: Seq<WhoNode>) -> Seq<WhoNodeView> {
    nodes.map_values(|n: WhoNode| n@)
}

/// Why an entry of the engine's listing is no session.
#[derive(Debug, Clone, Copy, PartialEq, Eq, Structural)]
pub enum Fault {
    /// The entry cannot be read: it is left out.
    Unreadable,
    /// The entry's labels name no user or no door: the container is not
    /// one of ours, and is left out.
    NotASession,
    /// The entry names user and door, and a node that is no number.
    BadNode,
}

/// A label: its key and its value.
pub type Label = (String, String);

/// What one container of the engine's listing tells: id, time of creation in
/// seconds since 1970, and labels.
pub type Listed = (String, i64, Vec<Label>);

/// The mathematical value of a `Listed`.
pub type ListedView = (Seq<char>, i64, Seq<(Seq<char>, Seq<char>)>);

/// The value of a `Listed`.
pub open spec fn listed_view(entry: Listed) -> ListedView {
    (entry.0@, entry.1, pairs(entry.2@))
}

/// The value of what an entry gives: a session or a fault.
pub open spec fn outcome_view(outcome: Result<WhoNode, Fault>) -> Result<WhoNodeView, Fault> {
    match outcome {
        Ok(node) => Ok(node@),
        Err(fault) => Err(fault),
    }
}

/// The values of a list of outcomes.
pub open spec fn outcome_views(outcomes: Seq<Result<WhoNode, Fault>>) -> Seq<
    Result<WhoNodeView, Fault>,
> {
    outcomes.map_values(|o: Result<WhoNode, Fault>| outcome_view(o))
}

/// The value of a list of sessions or an error.
pub open spec fn nodes_result(result: Result<Vec<WhoNode>, DoorError>) -> Result<
    Seq<WhoNodeView>,
    DoorErrorView,
> {
    match result {
        Ok(nodes) => Ok(node_views(nodes@)),
        Err(error) => Err(error@),
    }
}

// ---------------------------------------------------------------------------
// From labels to a session
// ---------------------------------------------------------------------------

/// The session that a container's labels describe. Where a key occurs more
/// than once its last value counts. Without `doorman.user` or
/// `doorman.door` the container is no session. `doorman.node`, where it is
/// there, must be a node number; `doorman.command` is taken as it is.
pub open spec fn spec_session(
    container_id: Seq<char>,
    labels: Seq<(Seq<char>, Seq<char>)>,
    since: i64,
) -> Result<WhoNodeView, Fault> {
    match (last_value(labels, "doorman.user"@), last_value(labels, "doorman.door"@)) {
        (Some(user), Some(door)) => {
            let command = last_value(labels, "doorman.command"@);
            match last_value(labels, "doorman.node"@) {
                Some(text) => match parse_small(text) {
                    Some(node) => Ok(
                        WhoNodeView { container_id, user, door, node: Some(node), command, since },
                    ),
                    None => Err(Fault::BadNode),
                },
                None => Ok(WhoNodeView { container_id, user, door, node: None, command, since }),
            }
        },
        _ => Err(Fault::NotASession),
    }
}

/// The session that a container's labels describe.
pub fn session_from_labels(container_id: String, labels: &Vec<Label>, since: i64) -> (outcome:
    Result<WhoNode, Fault>)
    ensures
        outcome_view(outcome) == spec_session(container_id@, pairs(labels@), since),
{
    let user = match find_last(labels, "doorman.user") {
        Some(user) => user.clone(),
        None => {
            return Err(Fault::NotASession);
        },
    };
    let door = match find_last(labels, "doorman.door") {
        Some(door) => door.clone(),
        None => {
            return Err(Fault::NotASession);
        },
    };
    let command = match find_last(labels, "doorman.command") {
        Some(command) => Some(command.clone()),
        None => None,
    };
    let node = match find_last(labels, "doorman.node") {
        Some(text) => match parse_i8(text.as_str()) {
            Some(node) => Some(node),
            None => {
                return Err(Fault::BadNode);
            },
        },
        None => None,
    };
    Ok(WhoNode { container_id, user, door, node, command, since })
}

/// The sessions among the outcomes, in their order: unreadable entries and
/// containers that are no sessions are left out, and a bad node label makes
/// the whole listing an error.
pub open spec fn spec_gather(outcomes: Seq<Result<WhoNodeView, Fault>>) -> Result<
    Seq<WhoNodeView>,
    DoorErrorView,
>
    decreases outcomes.len(),
{
    if outcomes.len() == 0 {
        Ok(Seq::empty())
    } else {
        match outcomes.last() {
            Ok(node) => match spec_gather(outcomes.drop_last()) {
                Ok(nodes) => Ok(nodes.push(node)),
                Err(error) => Err(error),
            },
            Err(Fault::BadNode) => Err(DoorErrorView::BadNodeLabel),
            Err(_) => spec_gather(outcomes.drop_last()),
        }
    }
}

/// Whether none of the outcomes is a bad node label.
pub open spec fn no_bad_node(outcomes: Seq<Result<WhoNodeView, Fault>>) -> bool {
    forall|i: int|
        0 <= i < outcomes.len() ==> #[trigger] outcomes[i] != Err::<WhoNodeView, Fault>(
            Fault::BadNode,
        )
}

/// A bad node label anywhere makes the listing an error.
pub proof fn lemma_gather_bad_node(outcomes: Seq<Result<WhoNodeView, Fault>>)
    ensures
        spec_gather(outcomes) is Ok <==> no_bad_node(outcomes),
        spec_gather(outcomes) is Err ==> spec_gather(outcomes) == Err::<
            Seq<WhoNodeView>,
            DoorErrorView,
        >(DoorErrorView::BadNodeLabel),
    decreases outcomes.len(),
{
    if outcomes.len() > 0 {
        let front = outcomes.drop_last();
        lemma_gather_bad_node(front);
        if no_bad_node(outcomes) {
            assert forall|i: int| 0 <= i < front.len() implies #[trigger] front[i]
                != Err::<WhoNodeView, Fault>(Fault::BadNode) by {
                assert(front[i] == outcomes[i]);
            }
            assert(outcomes[outcomes.len() - 1] != Err::<WhoNodeView, Fault>(Fault::BadNode));
        } else {
            if outcomes.last() != Err::<WhoNodeView, Fault>(Fault::BadNode) {
                assert(!no_bad_node(front)) by {
                    if no_bad_node(front) {
                        assert forall|i: int| 0 <= i < outcomes.len() implies #[trigger] outcomes[i]
                            != Err::<WhoNodeView, Fault>(Fault::BadNode) by {
                            if i < front.len() {
                                assert(front[i] == outcomes[i]);
                            }
                        }
                    }
                }
            }
        }
    }
}

/// The sessions among the outcomes.
pub fn gather(outcomes: Vec<Result<WhoNode, Fault>>) -> (nodes: Result<Vec<WhoNode>, DoorError>)
    ensures
        nodes_result(nodes) == spec_gather(outcome_views(outcomes@)),
{
    let ghost all = outcome_views(outcomes@);
    let mut nodes: Vec<WhoNode> = Vec::new();
    proof {
        assert(node_views(nodes@) =~= Seq::<WhoNodeView>::empty());
    }
    for outcome in it: outcomes
        invariant
            it.seq() == outcomes@,
            all == outcome_views(outcomes@),
            spec_gather(all.take(it.index())) == Ok::<Seq<WhoNodeView>, DoorErrorView>(
                node_views(nodes@),
            ),
    {
        let ghost seen = it.index();
        let ghost before = nodes@;
        proof {
            assert(all.take(seen + 1).drop_last() =~= all.take(seen));
            assert(all.take(seen + 1).last() == outcome_view(outcome));
        }
        match outcome {
            Ok(node) => {
                nodes.push(node);
                proof {
                    assert(node_views(nodes@) =~= node_views(before).push(node@));
                }
            },
            Err(Fault::BadNode) => {
                proof {
                    lemma_gather_bad_node(all);
                    assert(all[seen] == Err::<WhoNodeView, Fault>(Fault::BadNode));
                }
                return Err(DoorError::BadNodeLabel);
            },
            Err(_) => {},
        }
    }
    proof {
        assert(all.take(all.len() as int) =~= all);
    }
    Ok(nodes)
}

// ---------------------------------------------------------------------------
// The podman shape: one array of objects
// ---------------------------------------------------------------------------

/// The labels that the members of an object spell: every value must be a
/// text.
pub open spec fn spec_text_members(members: Seq<(Seq<char>, JsonView)>) -> Option<
    Seq<(Seq<char>, Seq<char>)>,
>
    decreases members.len(),
{
    if members.len() == 0 {
        Some(Seq::empty())
    } else {
        match (spec_text_members(members.drop_last()), members.last().1) {
            (Some(labels), JsonView::Text(value)) => Some(labels.push((members.last().0, value))),
            _ => None,
        }
    }
}

/// What an entry of podman's listing tells: `Id` must be a text and
/// `Created` an integer, the seconds since 1970; `Labels` may be missing or
/// null, which means no labels, or else an object of texts.
pub open spec fn spec_podman_entry(json: JsonView) -> Option<ListedView> {
    match (json.member("Id"@), json.member("Created"@)) {
        (Some(JsonView::Text(id)), Some(JsonView::Number(Some(created)))) => match json.member(
            "Labels"@,
        ) {
            None => Some((id, created, Seq::empty())),
            Some(JsonView::Null) => Some((id, created, Seq::empty())),
            Some(JsonView::Object(members)) => match spec_text_members(members) {
                Some(labels) => Some((id, created, labels)),
                None => None,
            },
            Some(_) => None,
        },
        _ => None,
    }
}

/// What the entries of podman's listing tell, if each can be read.
pub open spec fn spec_podman_entries(items: Seq<JsonView>) -> Option<Seq<ListedView>>
    decreases items.len(),
{
    if items.len() == 0 {
        Some(Seq::empty())
    } else {
        match (spec_podman_entries(items.drop_last()), spec_podman_entry(items.last())) {
            (Some(entries), Some(entry)) => Some(entries.push(entry)),
            _ => None,
        }
    }
}

/// What a document in podman's shape tells: an array whose items are all
/// entries of podman's listing.
pub open spec fn spec_podman_listing(document: Option<JsonView>) -> Option<Seq<ListedView>> {
    match document {
        Some(JsonView::Array(items)) => spec_podman_entries(items),
        _ => None,
    }
}

/// The values of a list of `Listed`.
pub open spec fn listed_views(entries: Seq<Listed>) -> Seq<ListedView> {
    entries.map_values(|e: Listed| listed_view(e))
}

fn text_members(members: &Vec<(String, Json)>) -> (labels: Option<Vec<Label>>)
    ensures
        match labels {
            Some(found) => spec_text_members(crate::json::members_view(members@)) == Some(
                pairs(found@),
            ),
            None => spec_text_members(crate::json::members_view(members@)) is None,
        },
{
    let ghost all = crate::json::members_view(members@);
    let mut labels: Vec<Label> = Vec::new();
    let mut i: usize = 0;
    proof {
        lemma_members_view(members@);
        assert(pairs(labels@) =~= Seq::empty());
    }
    while i < members.len()
        invariant
            i <= members.len(),
            all == crate::json::members_view(members@),
            all.len() == members@.len(),
            forall|j: int|
                0 <= j < members@.len() ==> #[trigger] all[j] == (members@[j].0@, members@[j].1@),
            spec_text_members(all.take(i as int)) == Some(pairs(labels@)),
        decreases members.len() - i,
    {
        let ghost before = labels@;
        proof {
            assert(all.take(i + 1).drop_last() =~= all.take(i as int));
            assert(all.take(i + 1).last() == all[i as int]);
        }
        match &members[i].1 {
            Json::Text(value) => {
                labels.push((members[i].0.clone(), value.clone()));
                proof {
                    assert(pairs(labels@) =~= pairs(before).push((members@[i as int].0@, value@)));
                }
            },
            _ => {
                proof {
                    lemma_text_members_prefix(all, i + 1);
                }
                return None;
            },
        }
        i += 1;
    }
    proof {
        assert(all.take(i as int) =~= all);
    }
    Some(labels)
}

/// Members that spell labels do so from the first on.
pub proof fn lemma_text_members_prefix(members: Seq<(Seq<char>, JsonView)>, k: int)
    requires
        0 <= k <= members.len(),
        spec_text_members(members.take(k)) is None,
    ensures
        spec_text_members(members) is None,
    decreases members.len() - k,
{
    if k < members.len() {
        assert(members.take(k + 1).drop_last() =~= members.take(k));
        lemma_text_members_prefix(members, k + 1);
    } else {
        assert(members.take(k) =~= members);
    }
}

/// Entries that can be read can be read from the first on.
pub proof fn lemma_podman_entries_prefix(items: Seq<JsonView>, k: int)
    requires
        0 <= k <= items.len(),
        spec_podman_entries(items.take(k)) is None,
    ensures
        spec_podman_entries(items) is None,
    decreases items.len() - k,
{
    if k < items.len() {
        assert(items.take(k + 1).drop_last() =~= items.take(k));
        lemma_podman_entries_prefix(items, k + 1);
    } else {
        assert(items.take(k) =~= items);
    }
}

/// What one entry of podman's listing tells.
pub fn podman_entry(json: &Json) -> (entry: Option<Listed>)
    ensures
        match entry {
            Some(found) => spec_podman_entry(json@) == Some(listed_view(found)),
            None => spec_podman_entry(json@) is None,
        },
{
    let id = match json.member("Id") {
        Some(Json::Text(id)) => id.clone(),
        _ => {
            return None;
        },
    };
    let created = match json.member("Created") {
        Some(Json::Number(Some(created))) => *created,
        _ => {
            return None;
        },
    };
    match json.member("Labels") {
        None => {
            let labels: Vec<Label> = Vec::new();
            assert(pairs(labels@) =~= Seq::empty());
            Some((id, created, labels))
        },
        Some(Json::Null) => {
            let labels: Vec<Label> = Vec::new();
            assert(pairs(labels@) =~= Seq::empty());
            Some((id, created, labels))
        },
        Some(Json::Object(members)) => match text_members(members) {
            Some(labels) => Some((id, created, labels)),
            None => None,
        },
        Some(_) => None,
    }
}

/// What a document in podman's shape tells; `None` for any other document.
pub fn podman_listing(document: &Option<Json>) -> (entries: Option<Vec<Listed>>)
    ensures
        match entries {
            Some(found) => spec_podman_listing(opt_json_view(*document)) == Some(
                listed_views(found@),
            ),
            None => spec_podman_listing(opt_json_view(*document)) is None,
        },
{
    match document {
        Some(Json::Array(items)) => {
            let ghost all = crate::json::items_view(items@);
            let mut entries: Vec<Listed> = Vec::new();
            let mut i: usize = 0;
            proof {
                lemma_items_view(items@);
                assert(listed_views(entries@) =~= Seq::empty());
            }
            while i < items.len()
                invariant
                    i <= items.len(),
                    spec_podman_listing(opt_json_view(*document)) == spec_podman_entries(all),
                    all == crate::json::items_view(items@),
                    all.len() == items@.len(),
                    forall|j: int| 0 <= j < items@.len() ==> #[trigger] all[j] == items@[j]@,
                    spec_podman_entries(all.take(i as int)) == Some(listed_views(entries@)),
                decreases items.len() - i,
            {
                let ghost before = entries@;
                proof {
                    assert(all.take(i + 1).drop_last() =~= all.take(i as int));
                    assert(all.take(i + 1).last() == all[i as int]);
                }
                match podman_entry(&items[i]) {
                    Some(entry) => {
                        entries.push(entry);
                        proof {
                            assert(listed_views(entries@) =~= listed_views(before).push(
                                listed_view(entry),
                            ));
                        }
                    },
                    None => {
                        proof {
                            lemma_podman_entries_prefix(all, i + 1);
                        }
                        return None;
                    },
                }
                i += 1;
            }
            proof {
                assert(all.take(i as int) =~= all);
            }
            Some(entries)
        },
        _ => None,
    }
}

/// The session that an entry of podman's listing describes.
pub fn parse_podman_container(container: Listed) -> (outcome: Result<WhoNode, Fault>)
    ensures
        outcome_view(outcome) == spec_session(container.0@, pairs(container.2@), container.1),
{
    session_from_labels(container.0, &container.2, container.1)
}

/// The sessions of a listing in podman's shape.
pub open spec fn spec_podman_sessions(entries: Seq<ListedView>) -> Result<
    Seq<WhoNodeView>,
    DoorErrorView,
> {
    spec_gather(entries.map_values(|e: ListedView| spec_session(e.0, e.2, e.1)))
}

/// The sessions of a listing, if it is in podman's shape.
pub open spec fn spec_parse_podman(output: Seq<char>) -> Option<
    Result<Seq<WhoNodeView>, DoorErrorView>,
> {
    match spec_podman_listing(parsed(output)) {
        Some(entries) => Some(spec_podman_sessions(entries)),
        None => None,
    }
}

/// The sessions among the entries of podman's listing.
pub fn podman_sessions(entries: Vec<Listed>) -> (nodes: Result<Vec<WhoNode>, DoorError>)
    ensures
        nodes_result(nodes) == spec_podman_sessions(listed_views(entries@)),
{
    let ghost all = listed_views(entries@);
    let ghost wanted = all.map_values(|e: ListedView| spec_session(e.0, e.2, e.1));
    let mut outcomes: Vec<Result<WhoNode, Fault>> = Vec::new();
    proof {
        assert(outcome_views(outcomes@) =~= wanted.take(0));
    }
    for entry in it: entries
        invariant
            it.seq() == entries@,
            all == listed_views(entries@),
            wanted == all.map_values(|e: ListedView| spec_session(e.0, e.2, e.1)),
            outcome_views(outcomes@) == wanted.take(it.index()),
    {
        let ghost seen = it.index();
        let ghost before = outcomes@;
        proof {
            assert(all[seen] == listed_view(entry));
        }
        let outcome = parse_podman_container(entry);
        outcomes.push(outcome);
        proof {
            assert(outcome_views(outcomes@) =~= outcome_views(before).push(outcome_view(outcome)));
            assert(outcome_views(outcomes@) =~= wanted.take(seen + 1));
        }
    }
    proof {
        assert(wanted.take(wanted.len() as int) =~= wanted);
    }
    gather(outcomes)
}

/// The sessions of a listing in podman's shape; `None` for a listing in
/// any other shape.
pub fn parse_podman(output: &str) -> (nodes: Option<Result<Vec<WhoNode>, DoorError>>)
    ensures
        match nodes {
            Some(found) => spec_parse_podman(output@) == Some(nodes_result(found)),
            None => spec_parse_podman(output@) is None,
        },
{
    let document = Json::parse(output);
    match podman_listing(&document) {
        Some(entries) => Some(podman_sessions(entries)),
        None => None,
    }
}

// ---------------------------------------------------------------------------
// The generic shape: one object on each line
// ---------------------------------------------------------------------------

/// What `chrono` reads from a text as a time in a given format: the seconds
/// since 1970, or `None` where the text does not fit the format.
pub uninterp spec fn parsed_time(text: Seq<char>, format: Seq<char>) -> Option<i64>;

/// `DateTime::parse_from_str` of `chrono`, and `DateTime::timestamp` of what
/// it gives: the seconds depend on the text and the format alone.
#[verifier::external_body]
fn parse_time(text: &str, format: &str) -> (seconds: Option<i64>)
    ensures
        seconds == parsed_time(text@, format@),
{
    chrono::DateTime::parse_from_str(text, format).ok().map(|time| time.timestamp())
}

/// The labels that a comma-separated list of `key=value` spells. An item
/// without `=` is a key with an empty value.
pub open spec fn spec_label_entries(labels: Seq<char>) -> Seq<(Seq<char>, Seq<char>)> {
    pieces(labels, ',').map_values(|item: Seq<char>| (before_first(item, '='), after_first(item, '=')))
}

/// The key and the value of a label written as `key=value`.
pub fn split_docker_label(label: &str) -> (entry: Label)
    ensures
        entry.0@ == before_first(label@, '='),
        entry.1@ == after_first(label@, '='),
{
    split_once(label, '=')
}

/// The labels that a comma-separated list of `key=value` spells.
pub fn label_entries(labels: &str) -> (entries: Vec<Label>)
    ensures
        pairs(entries@) == spec_label_entries(labels@),
{
    let items = split(labels, ',');
    let mut entries: Vec<Label> = Vec::new();
    let mut i: usize = 0;
    assert(pairs(entries@) =~= spec_label_entries(labels@).take(0));
    while i < items.len()
        invariant
            i <= items.len(),
            views(items@) == pieces(labels@, ','),
            pairs(entries@) == spec_label_entries(labels@).take(i as int),
        decreases items.len() - i,
    {
        let ghost before = entries@;
        let entry = split_docker_label(items[i].as_str());
        assert(views(items@)[i as int] == items@[i as int]@);
        entries.push(entry);
        proof {
            assert(pairs(entries@) =~= pairs(before).push((entry.0@, entry.1@)));
            assert(pairs(entries@) =~= spec_label_entries(labels@).take(i + 1));
        }
        i += 1;
    }
    assert(spec_label_entries(labels@).take(i as int) =~= spec_label_entries(labels@));
    entries
}

/// What an entry of the generic listing tells: `ID`, `CreatedAt` and
/// `Labels`, all of them texts.
pub open spec fn spec_docker_entry(json: JsonView) -> Option<(Seq<char>, Seq<char>, Seq<char>)> {
    match (json.member("ID"@), json.member("CreatedAt"@), json.member("Labels"@)) {
        (
            Some(JsonView::Text(id)),
            Some(JsonView::Text(created)),
            Some(JsonView::Text(labels)),
        ) => Some((id, created, labels)),
        _ => None,
    }
}

/// The format of `CreatedAt`: date, time, offset from UTC, and the name of
/// the time zone.
pub open spec fn created_format() -> Seq<char> {
    "%F %T %z %Z"@
}

/// The session that one line of the generic listing describes. A line that
/// is no JSON object with the three texts, or whose `CreatedAt` is no time
/// in the format, is unreadable.
pub open spec fn spec_docker_line(line: Seq<char>) -> Result<WhoNodeView, Fault> {
    match parsed(line) {
        Some(json) => match spec_docker_entry(json) {
            Some((id, created, labels)) => match parsed_time(created, created_format()) {
                Some(since) => spec_session(id, spec_label_entries(labels), since),
                None => Err(Fault::Unreadable),
            },
            None => Err(Fault::Unreadable),
        },
        None => Err(Fault::Unreadable),
    }
}

/// The session that one line of the generic listing describes.
pub fn parse_docker_line(line: &str) -> (outcome: Result<WhoNode, Fault>)
    ensures
        outcome_view(outcome) == spec_docker_line(line@),
{
    let json = match Json::parse(line) {
        Some(json) => json,
        None => {
            return Err(Fault::Unreadable);
        },
    };
    let id = match json.member("ID") {
        Some(Json::Text(id)) => id.clone(),
        _ => {
            return Err(Fault::Unreadable);
        },
    };
    let created = match json.member("CreatedAt") {
        Some(Json::Text(created)) => created,
        _ => {
            return Err(Fault::Unreadable);
        },
    };
    let labels = match json.member("Labels") {
        Some(Json::Text(labels)) => labels,
        _ => {
            return Err(Fault::Unreadable);
        },
    };
    let since = match parse_time(created.as_str(), "%F %T %z %Z") {
        Some(since) => since,
        None => {
            return Err(Fault::Unreadable);
        },
    };
    let entries = label_entries(labels.as_str());
    session_from_labels(id, &entries, since)
}

/// The sessions of a listing in the generic shape.
pub open spec fn spec_parse_docker(output: Seq<char>) -> Result<Seq<WhoNodeView>, DoorErrorView> {
    spec_gather(spec_lines(output).map_values(|line: Seq<char>| spec_docker_line(line)))
}

/// The sessions of a listing in the generic shape.
pub fn parse_docker(output: &str) -> (nodes: Result<Vec<WhoNode>, DoorError>)
    ensures
        nodes_result(nodes) == spec_parse_docker(output@),
{
    let found = lines(output);
    let ghost wanted = spec_lines(output@).map_values(|line: Seq<char>| spec_docker_line(line));
    let mut outcomes: Vec<Result<WhoNode, Fault>> = Vec::new();
    let mut i: usize = 0;
    assert(outcome_views(outcomes@) =~= wanted.take(0));
    while i < found.len()
        invariant
            i <= found.len(),
            views(found@) == spec_lines(output@),
            wanted == spec_lines(output@).map_values(|line: Seq<char>| spec_docker_line(line)),
            outcome_views(outcomes@) == wanted.take(i as int),
        decreases found.len() - i,
    {
        let ghost before = outcomes@;
        let outcome = parse_docker_line(found[i].as_str());
        assert(views(found@)[i as int] == found@[i as int]@);
        outcomes.push(outcome);
        proof {
            assert(outcome_views(outcomes@) =~= outcome_views(before).push(outcome_view(outcome)));
            assert(outcome_views(outcomes@) =~= wanted.take(i + 1));
        }
        i += 1;
    }
    assert(wanted.take(i as int) =~= wanted);
    gather(outcomes)
}

/// The sessions of a listing: read in podman's shape where it has that
/// shape, and in the generic shape otherwise.
pub open spec fn spec_parse_ps(output: Seq<char>) -> Result<Seq<WhoNodeView>, DoorErrorView> {
    match spec_parse_podman(output) {
        Some(nodes) => nodes,
        None => spec_parse_docker(output),
    }
}

/// The sessions of a listing of either engine.
pub fn parse_ps(output: &str) -> (nodes: Result<Vec<WhoNode>, DoorError>)
    ensures
        nodes_result(nodes) == spec_parse_ps(output@),
{
    match parse_podman(output) {
        Some(nodes) => nodes,
        None => parse_docker(output),
    }
}

// ---------------------------------------------------------------------------
// Order
// ---------------------------------------------------------------------------

/// The number a session is ordered by within its door: its node, and 0 for
/// maintenance, which has none.
pub open spec fn rank(node: WhoNodeView) -> int {
    match node.node {
        Some(n) => n as int,
        None => 0,
    }
}

/// Whether `a` may stand before `b` in the list: its door comes first, or
/// the doors are the same and its rank is not the higher one.
pub open spec fn precedes(a: WhoNodeView, b: WhoNodeView) -> bool {
    if a.door == b.door {
        rank(a) <= rank(b)
    } else {
        crate::text::text_le(a.door, b.door)
    }
}

/// Whether two sessions have the same door and the same rank.
pub open spec fn same_place(a: WhoNodeView, b: WhoNodeView) -> bool {
    a.door == b.door && rank(a) == rank(b)
}

/// Whether the list is in order: by door, and within a door by rank.
pub open spec fn in_order(nodes: Seq<WhoNodeView>) -> bool {
    forall|i: int, j: int|
        0 <= i < j < nodes.len() ==> precedes(#[trigger] nodes[i], #[trigger] nodes[j])
}

/// The sessions of the list that have the door and rank of `place`, in the
/// order of the list.
pub open spec fn at_place(nodes: Seq<WhoNodeView>, place: WhoNodeView) -> Seq<WhoNodeView> {
    nodes.filter(|n: WhoNodeView| same_place(n, place))
}

/// Whether `after` holds the sessions of `before`, those of the same door
/// and rank in the order they had.
pub open spec fn same_sessions(before: Seq<WhoNodeView>, after: Seq<WhoNodeView>) -> bool {
    forall|place: WhoNodeView| #[trigger] at_place(after, place) == at_place(before, place)
}

/// Where a session goes in a list in order: before the first session that
/// it may stand before, or else at the end.
pub open spec fn spec_slot(nodes: Seq<WhoNodeView>, node: WhoNodeView) -> int
    decreases nodes.len(),
{
    if nodes.len() == 0 || precedes(node, nodes[0]) {
        0
    } else {
        1 + spec_slot(nodes.skip(1), node)
    }
}

/// The sessions in order: each is put, from the last to the first, into
/// the list of those behind it, before the first session that it may stand
/// before.
pub open spec fn spec_sorted(nodes: Seq<WhoNodeView>) -> Seq<WhoNodeView>
    decreases nodes.len(),
{
    if nodes.len() == 0 {
        Seq::empty()
    } else {
        let rest = spec_sorted(nodes.skip(1));
        rest.insert(spec_slot(rest, nodes[0]), nodes[0])
    }
}

/// Of two sessions one may stand before the other.
pub proof fn lemma_precedes_total(a: WhoNodeView, b: WhoNodeView)
    ensures
        precedes(a, b) || precedes(b, a),
{
    crate::text::lemma_text_le_total(a.door, b.door);
}

/// The order of sessions is transitive.
pub proof fn lemma_precedes_transitive(a: WhoNodeView, b: WhoNodeView, c: WhoNodeView)
    requires
        precedes(a, b),
        precedes(b, c),
    ensures
        precedes(a, c),
{
    if a.door == b.door {
    } else if b.door == c.door {
    } else if a.door == c.door {
        crate::text::lemma_text_le_antisymmetric(a.door, b.door);
    } else {
        crate::text::lemma_text_le_transitive(a.door, b.door, c.door);
    }
}

/// The slot is the first place whose session the new one may stand before.
pub proof fn lemma_slot(nodes: Seq<WhoNodeView>, node: WhoNodeView)
    ensures
        0 <= spec_slot(nodes, node) <= nodes.len(),
        forall|j: int| 0 <= j < spec_slot(nodes, node) ==> !precedes(node, #[trigger] nodes[j]),
        spec_slot(nodes, node) < nodes.len() ==> precedes(node, nodes[spec_slot(nodes, node)]),
    decreases nodes.len(),
{
    if nodes.len() == 0 || precedes(node, nodes[0]) {
    } else {
        let rest = nodes.skip(1);
        lemma_slot(rest, node);
        assert forall|j: int| 0 <= j < spec_slot(nodes, node) implies !precedes(
            node,
            #[trigger] nodes[j],
        ) by {
            if j > 0 {
                assert(rest[j - 1] == nodes[j]);
            }
        }
    }
}

/// The slot is the only place behind all that the session may not stand
/// before and before one that it may.
proof fn lemma_slot_is(nodes: Seq<WhoNodeView>, node: WhoNodeView, at: int)
    requires
        0 <= at <= nodes.len(),
        forall|j: int| 0 <= j < at ==> !precedes(node, #[trigger] nodes[j]),
        at < nodes.len() ==> precedes(node, nodes[at]),
    ensures
        spec_slot(nodes, node) == at,
{
    lemma_slot(nodes, node);
    let slot = spec_slot(nodes, node);
    if slot < at {
        assert(!precedes(node, nodes[slot]));
    } else if at < slot {
        assert(!precedes(node, nodes[at]));
    }
}

/// A list none of whose items is wanted has nothing to show.
proof fn lemma_filter_none(nodes: Seq<WhoNodeView>, wanted: spec_fn(WhoNodeView) -> bool)
    requires
        forall|i: int| 0 <= i < nodes.len() ==> !wanted(#[trigger] nodes[i]),
    ensures
        nodes.filter(wanted) == Seq::<WhoNodeView>::empty(),
    decreases nodes.len(),
{
    reveal(Seq::filter);
    if nodes.len() > 0 {
        let front = nodes.drop_last();
        assert forall|i: int| 0 <= i < front.len() implies !wanted(#[trigger] front[i]) by {
            assert(front[i] == nodes[i]);
        }
        lemma_filter_none(front, wanted);
        assert(!wanted(nodes[nodes.len() - 1]));
    } else {
        assert(nodes.filter(wanted) =~= Seq::<WhoNodeView>::empty());
    }
}

/// What a list of one item shows.
proof fn lemma_filter_one(node: WhoNodeView, wanted: spec_fn(WhoNodeView) -> bool)
    ensures
        seq![node].filter(wanted) == if wanted(node) {
            seq![node]
        } else {
            Seq::<WhoNodeView>::empty()
        },
{
    reveal_with_fuel(Seq::filter, 2);
    assert(seq![node].drop_last() =~= Seq::<WhoNodeView>::empty());
    assert(seq![node].last() == node);
    if wanted(node) {
        assert(Seq::<WhoNodeView>::empty().push(node) =~= seq![node]);
    }
}

/// Putting a session into its slot keeps a list in order, and keeps the
/// sessions of each door and rank in the order of the list with the session
/// in front.
proof fn lemma_insert(out: Seq<WhoNodeView>, node: WhoNodeView, rest: Seq<WhoNodeView>)
    requires
        in_order(out),
        same_sessions(rest, out),
    ensures
        in_order(out.insert(spec_slot(out, node), node)),
        same_sessions(seq![node] + rest, out.insert(spec_slot(out, node), node)),
{
    lemma_slot(out, node);
    let at = spec_slot(out, node);
    let next = out.insert(at, node);
    assert forall|i: int, j: int| 0 <= i < j < next.len() implies precedes(
        #[trigger] next[i],
        #[trigger] next[j],
    ) by {
        if j < at {
            assert(next[i] == out[i] && next[j] == out[j]);
        } else if j == at {
            assert(next[i] == out[i]);
            lemma_precedes_total(node, out[i]);
        } else if i < at {
            assert(next[i] == out[i] && next[j] == out[j - 1]);
        } else if i == at {
            assert(next[j] == out[j - 1]);
            if j - 1 > at {
                lemma_precedes_transitive(node, out[at], out[j - 1]);
            }
        } else {
            assert(next[i] == out[i - 1] && next[j] == out[j - 1]);
        }
    }
    assert forall|place: WhoNodeView| #[trigger] at_place(next, place) == at_place(
        seq![node] + rest,
        place,
    ) by {
        let wanted = |n: WhoNodeView| same_place(n, place);
        let head = out.take(at);
        let tail = out.skip(at);
        assert(next =~= head + seq![node] + tail);
        assert(out =~= head + tail);
        Seq::filter_distributes_over_add(head, seq![node], wanted);
        Seq::filter_distributes_over_add(head + seq![node], tail, wanted);
        Seq::filter_distributes_over_add(head, tail, wanted);
        Seq::filter_distributes_over_add(seq![node], rest, wanted);
        lemma_filter_one(node, wanted);
        assert(at_place(out, place) == at_place(rest, place));
        if same_place(node, place) {
            assert forall|i: int| 0 <= i < head.len() implies !wanted(#[trigger] head[i]) by {
                assert(head[i] == out[i]);
            }
            lemma_filter_none(head, wanted);
            assert(next.filter(wanted) =~= seq![node] + tail.filter(wanted));
            assert(out.filter(wanted) =~= tail.filter(wanted));
        } else {
            assert(next.filter(wanted) =~= head.filter(wanted) + tail.filter(wanted));
        }
    }
}

/// The sorted list is in order, and holds the sessions of the list it was
/// made of, those of the same door and rank in the order they had.
pub proof fn lemma_sorted(nodes: Seq<WhoNodeView>)
    ensures
        in_order(spec_sorted(nodes)),
        same_sessions(nodes, spec_sorted(nodes)),
        spec_sorted(nodes).len() == nodes.len(),
    decreases nodes.len(),
{
    if nodes.len() > 0 {
        let rest = nodes.skip(1);
        lemma_sorted(rest);
        lemma_insert(spec_sorted(rest), nodes[0], rest);
        lemma_slot(spec_sorted(rest), nodes[0]);
        assert(seq![nodes[0]] + rest =~= nodes);
    } else {
        assert(nodes =~= Seq::<WhoNodeView>::empty());
    }
}

/// Two sessions each of which may stand before the other have the same
/// door and rank.
pub proof fn lemma_precedes_antisymmetric(a: WhoNodeView, b: WhoNodeView)
    requires
        precedes(a, b),
        precedes(b, a),
    ensures
        same_place(a, b),
{
    if a.door != b.door {
        crate::text::lemma_text_le_antisymmetric(a.door, b.door);
    }
}

/// What a list shows is what its first item shows, then what the rest
/// shows.
proof fn lemma_filter_first(nodes: Seq<WhoNodeView>, wanted: spec_fn(WhoNodeView) -> bool)
    requires
        nodes.len() > 0,
    ensures
        nodes.filter(wanted) == if wanted(nodes[0]) {
            seq![nodes[0]] + nodes.skip(1).filter(wanted)
        } else {
            nodes.skip(1).filter(wanted)
        },
{
    assert(nodes =~= seq![nodes[0]] + nodes.skip(1));
    Seq::filter_distributes_over_add(seq![nodes[0]], nodes.skip(1), wanted);
    lemma_filter_one(nodes[0], wanted);
    if !wanted(nodes[0]) {
        assert(Seq::<WhoNodeView>::empty() + nodes.skip(1).filter(wanted) =~= nodes.skip(1).filter(
            wanted,
        ));
    }
}

/// The first session of a list is the first of its place in any list in
/// order that holds the same sessions.
proof fn lemma_same_first(a: Seq<WhoNodeView>, b: Seq<WhoNodeView>)
    requires
        in_order(a),
        in_order(b),
        same_sessions(a, b),
        a.len() > 0,
    ensures
        b.len() > 0,
        a[0] == b[0],
{
    let p = a[0];
    let at_p = |n: WhoNodeView| same_place(n, p);
    lemma_filter_first(a, at_p);
    assert(at_place(b, p) == at_place(a, p));
    assert(at_place(a, p)[0] == p);
    if b.len() == 0 {
        lemma_filter_none(b, at_p);
    }
    let q = b[0];
    let at_q = |n: WhoNodeView| same_place(n, q);
    lemma_filter_first(b, at_q);
    assert(at_place(b, q) == at_place(a, q));
    assert(at_place(b, q)[0] == q);
    // Each of the two firsts stands somewhere in the other list.
    assert(at_place(b, p).contains(p));
    b.lemma_filter_contains_rev(at_p, p);
    assert(at_place(a, q).contains(q));
    a.lemma_filter_contains_rev(at_q, q);
    let j = choose|j: int| 0 <= j < b.len() && b[j] == p;
    let i = choose|i: int| 0 <= i < a.len() && a[i] == q;
    if j != 0 && i != 0 {
        assert(precedes(b[0], b[j]));
        assert(precedes(a[0], a[i]));
        lemma_precedes_antisymmetric(p, q);
        assert(at_p =~= at_q);
    }
}

/// The order of a list is settled by its sessions: two lists in order that
/// hold the same sessions, those of the same door and rank in the same
/// order, are the same list.
pub proof fn lemma_order_unique(a: Seq<WhoNodeView>, b: Seq<WhoNodeView>)
    requires
        in_order(a),
        in_order(b),
        same_sessions(a, b),
    ensures
        a == b,
    decreases a.len(),
{
    if a.len() == 0 {
        if b.len() > 0 {
            let at_q = |n: WhoNodeView| same_place(n, b[0]);
            lemma_filter_first(b, at_q);
            assert(at_place(b, b[0]) == at_place(a, b[0]));
            lemma_filter_none(a, at_q);
            assert(at_place(b, b[0]).len() > 0);
        }
        assert(a =~= b);
    } else {
        lemma_same_first(a, b);
        let rest_a = a.skip(1);
        let rest_b = b.skip(1);
        assert forall|i: int, j: int| 0 <= i < j < rest_a.len() implies precedes(
            #[trigger] rest_a[i],
            #[trigger] rest_a[j],
        ) by {
            assert(rest_a[i] == a[i + 1] && rest_a[j] == a[j + 1]);
        }
        assert forall|i: int, j: int| 0 <= i < j < rest_b.len() implies precedes(
            #[trigger] rest_b[i],
            #[trigger] rest_b[j],
        ) by {
            assert(rest_b[i] == b[i + 1] && rest_b[j] == b[j + 1]);
        }
        assert forall|place: WhoNodeView| #[trigger] at_place(rest_b, place) == at_place(
            rest_a,
            place,
        ) by {
            let wanted = |n: WhoNodeView| same_place(n, place);
            lemma_filter_first(a, wanted);
            lemma_filter_first(b, wanted);
            assert(at_place(b, place) == at_place(a, place));
            if wanted(a[0]) {
                let shown_a = seq![a[0]] + rest_a.filter(wanted);
                let shown_b = seq![b[0]] + rest_b.filter(wanted);
                assert(shown_a.skip(1) =~= rest_a.filter(wanted));
                assert(shown_b.skip(1) =~= rest_b.filter(wanted));
            }
        }
        lemma_order_unique(rest_a, rest_b);
        assert(a =~= seq![a[0]] + rest_a);
        assert(b =~= seq![b[0]] + rest_b);
    }
}

/// The sorted list is the one list in order that holds the sessions of the
/// list it was made of, those of the same door and rank in the order they
/// had.
pub proof fn lemma_sorted_is_the_order(nodes: Seq<WhoNodeView>, sorted: Seq<WhoNodeView>)
    requires
        in_order(sorted),
        same_sessions(nodes, sorted),
    ensures
        sorted == spec_sorted(nodes),
{
    lemma_sorted(nodes);
    let ours = spec_sorted(nodes);
    assert forall|place: WhoNodeView| #[trigger] at_place(ours, place) == at_place(
        sorted,
        place,
    ) by {
        assert(at_place(ours, place) == at_place(nodes, place));
        assert(at_place(sorted, place) == at_place(nodes, place));
    }
    lemma_order_unique(sorted, ours);
}

/// Whether `a` may stand before `b`.
fn stands_before(a: &WhoNode, b: &WhoNode) -> (before: bool)
    ensures
        before == precedes(a@, b@),
{
    if crate::text::same_text(a.door.as_str(), b.door.as_str()) {
        let left: i8 = match a.node {
            Some(n) => n,
            None => 0,
        };
        let right: i8 = match b.node {
            Some(n) => n,
            None => 0,
        };
        left <= right
    } else {
        crate::text::text_before(a.door.as_str(), b.door.as_str())
    }
}

/// Puts the sessions in order: by door, in the order of Rust's strings, and
/// within a door by node, maintenance first. Sessions of the same door and
/// node keep the order they came in.
pub fn sort_sessions(nodes: Vec<WhoNode>) -> (sorted: Vec<WhoNode>)
    ensures
        node_views(sorted@) == spec_sorted(node_views(nodes@)),
        in_order(node_views(sorted@)),
        same_sessions(node_views(nodes@), node_views(sorted@)),
{
    let ghost all = node_views(nodes@);
    let mut rest = nodes;
    let mut out: Vec<WhoNode> = Vec::new();
    proof {
        assert(all.skip(all.len() as int) =~= Seq::<WhoNodeView>::empty());
        assert(all.take(all.len() as int) =~= all);
        assert(node_views(out@) =~= Seq::<WhoNodeView>::empty());
    }
    while rest.len() > 0
        invariant
            all == node_views(nodes@),
            rest@.len() <= all.len(),
            node_views(rest@) == all.take(rest@.len() as int),
            node_views(out@) == spec_sorted(all.skip(rest@.len() as int)),
        decreases rest.len(),
    {
        let ghost n = rest@.len() as int;
        let ghost before = rest@;
        let ghost old_out = out@;
        match rest.pop() {
            Some(node) => {
                let mut at: usize = 0;
                while at < out.len() && !stands_before(&node, &out[at])
                    invariant
                        at <= out.len(),
                        forall|j: int|
                            0 <= j < at ==> !precedes(node@, #[trigger] node_views(out@)[j]),
                    decreases out.len() - at,
                {
                    at += 1;
                }
                proof {
                    assert(at < out.len() ==> node_views(out@)[at as int] == out@[at as int]@);
                    lemma_slot_is(node_views(out@), node@, at as int);
                    assert(node_views(before)[n - 1] == all[n - 1]);
                    assert(node_views(rest@) =~= all.take(n - 1));
                    assert(all.skip(n - 1).skip(1) =~= all.skip(n));
                    assert(all.skip(n - 1)[0] == node@);
                }
                out.insert(at, node);
                proof {
                    assert(node_views(out@) =~= node_views(old_out).insert(at as int, node@));
                }
            },
            None => {},
        }
    }
    proof {
        assert(all.skip(0) =~= all);
        lemma_sorted(all);
    }
    out
}

// ---------------------------------------------------------------------------
// The listing
// ---------------------------------------------------------------------------

/// The filter that picks the session containers: those that carry the door
/// label, with the door's name as its value where one door is asked for.
pub open spec fn spec_filter(door: Option<Seq<char>>) -> Seq<char> {
    match door {
        Some(name) => "label=doorman.door="@ + name,
        None => "label=doorman.door"@,
    }
}

/// The command that lists the session containers as JSON.
pub fn who_query(engine: &str, door: &Option<String>) -> (command: CommandLine)
    ensures
        command@ == (CommandLineView {
            program: engine@,
            args: seq!["ps"@, "--format=json"@, "--filter"@, spec_filter(opt_view(*door))],
        }),
{
    let filter = match door {
        Some(name) => join_text("label=doorman.door=", name.as_str()),
        None => "label=doorman.door".to_owned(),
    };
    let mut args: Vec<String> = Vec::new();
    args.push("ps".to_owned());
    args.push("--format=json".to_owned());
    args.push("--filter".to_owned());
    args.push(filter);
    assert(views(args@) =~= seq![
        "ps"@,
        "--format=json"@,
        "--filter"@,
        spec_filter(opt_view(*door)),
    ]);
    CommandLine { program: engine.to_owned(), args }
}

/// The sessions that the engine's listing tells of, in order. The listing
/// must have left with exit code 0 and be UTF-8.
pub open spec fn spec_who(code: Option<i32>, output: Seq<u8>) -> Result<
    Seq<WhoNodeView>,
    DoorErrorView,
> {
    if code != Some(0i32) {
        Err(DoorErrorView::ListingFailed { code })
    } else if !valid_utf8(output) {
        Err(DoorErrorView::ListingUnreadable)
    } else {
        match spec_parse_ps(decode_utf8(output)) {
            Ok(nodes) => Ok(spec_sorted(nodes)),
            Err(error) => Err(error),
        }
    }
}

/// The sessions that the engine's listing tells of, in order: `code` is the
/// exit code of the listing command and `output` what it printed.
pub fn who(code: Option<i32>, output: Vec<u8>) -> (nodes: Result<Vec<WhoNode>, DoorError>)
    ensures
        nodes_result(nodes) == spec_who(code, output@),
{
    let listed = match code {
        Some(c) => c == 0,
        None => false,
    };
    if !listed {
        return Err(DoorError::ListingFailed { code });
    }
    let text = match decode_text(output) {
        Some(text) => text,
        None => {
            return Err(DoorError::ListingUnreadable);
        },
    };
    match parse_ps(text.as_str()) {
        Ok(nodes) => Ok(sort_sessions(nodes)),
        Err(error) => Err(error),
    }
}

// ---------------------------------------------------------------------------
// The report
// ---------------------------------------------------------------------------

/// How `chrono_humanize` words a span of `seconds`, roughly and without
/// tense; `None` for a span that `chrono` cannot hold.
pub uninterp spec fn humanized(seconds: i64) -> Option<Seq<char>>;

/// `Duration::try_seconds` of `chrono`, and `HumanTime::to_text_en` of
/// `chrono_humanize` with rough accuracy in the present tense: the words
/// depend on the number of seconds alone.
#[verifier::external_body]
fn humanize(seconds: i64) -> (words: Option<String>)
    ensures
        opt_view(words) == humanized(seconds),
{
    chrono::Duration::try_seconds(seconds).map(
        |span|
            chrono_humanize::HumanTime::from(span).to_text_en(
                chrono_humanize::Accuracy::Rough,
                chrono_humanize::Tense::Present,
            ),
    )
}

/// The text of the table that `comfy_table` draws of a header and rows, in
/// the style of the full UTF-8 preset with round corners and solid inner
/// borders.
pub uninterp spec fn table_text(header: Seq<Seq<char>>, rows: Seq<Seq<Seq<char>>>) -> Seq<char>;

/// `comfy_table::Table`: a new table with the full UTF-8 preset, round
/// corners and solid inner borders, the header and the rows, written with
/// `to_string`. The text depends on the header and the rows alone: the
/// terminal is asked only for what this table does not use, a dynamic
/// arrangement of the columns and styled cells.
#[verifier::external_body]
fn render_table(header: Vec<String>, rows: Vec<Vec<String>>) -> (table: String)
    ensures
        table@ == table_text(views(header@), rows_view(rows@)),
{
    let mut table = comfy_table::Table::new();
    table.load_preset(comfy_table::presets::UTF8_FULL);
    table.apply_modifier(comfy_table::modifiers::UTF8_ROUND_CORNERS);
    table.apply_modifier(comfy_table::modifiers::UTF8_SOLID_INNER_BORDERS);
    table.set_header(header);
    table.add_rows(rows);
    table.to_string()
}

/// `chrono::Utc::now` and `DateTime::timestamp`: the seconds since 1970 at
/// the moment of the call. Nothing is promised of the number.
#[verifier::external_body]
fn unix_time() -> (seconds: i64) {
    chrono::Utc::now().timestamp()
}

/// What the table shows where a session has neither node nor command, or a
/// time that cannot be put into words.
pub open spec fn unknown() -> Seq<char> {
    "???"@
}

/// What the table shows as a session's node: the node; for maintenance the
/// operation.
pub open spec fn spec_place(node: WhoNodeView) -> Seq<char> {
    match node.node {
        Some(n) => decimal(n as int),
        None => match node.command {
            Some(command) => command,
            None => unknown(),
        },
    }
}

/// How long a session has run at the time `now`, in words.
pub open spec fn spec_elapsed(now: i64, since: i64) -> Seq<char> {
    if i64::MIN <= now - since <= i64::MAX {
        match humanized((now - since) as i64) {
            Some(words) => words,
            None => unknown(),
        }
    } else {
        unknown()
    }
}

/// The row of a session: user, door, node, and how long it has run.
pub open spec fn spec_row(node: WhoNodeView, now: i64) -> Seq<Seq<char>> {
    seq![node.user, node.door, spec_place(node), spec_elapsed(now, node.since)]
}

/// The rows of the sessions, one for each, in their order.
pub open spec fn spec_rows(nodes: Seq<WhoNodeView>, now: i64) -> Seq<Seq<Seq<char>>> {
    nodes.map_values(|node: WhoNodeView| spec_row(node, now))
}

/// The values of a list of rows.
pub open spec fn rows_view(rows: Seq<Vec<String>>) -> Seq<Seq<Seq<char>>> {
    rows.map_values(|row: Vec<String>| views(row@))
}

/// The row of a session in the table.
pub fn who_row(node: &WhoNode, now: i64) -> (row: Vec<String>)
    ensures
        views(row@) == spec_row(node@, now),
{
    let place = match node.node {
        Some(n) => format_integer(n as i64),
        None => match &node.command {
            Some(command) => command.clone(),
            None => "???".to_owned(),
        },
    };
    let elapsed = match now.checked_sub(node.since) {
        Some(seconds) => match humanize(seconds) {
            Some(words) => words,
            None => "???".to_owned(),
        },
        None => "???".to_owned(),
    };
    let mut row: Vec<String> = Vec::new();
    row.push(node.user.clone());
    row.push(node.door.clone());
    row.push(place);
    row.push(elapsed);
    assert(views(row@) =~= spec_row(node@, now));
    row
}

/// The rows of the table of sessions.
pub fn who_rows(nodes: &Vec<WhoNode>, now: i64) -> (rows: Vec<Vec<String>>)
    ensures
        rows_view(rows@) == spec_rows(node_views(nodes@), now),
{
    let mut rows: Vec<Vec<String>> = Vec::new();
    let mut i: usize = 0;
    assert(rows_view(rows@) =~= spec_rows(node_views(nodes@), now).take(0));
    while i < nodes.len()
        invariant
            i <= nodes.len(),
            rows_view(rows@) == spec_rows(node_views(nodes@), now).take(i as int),
        decreases nodes.len() - i,
    {
        let ghost before = rows@;
        let row = who_row(&nodes[i], now);
        rows.push(row);
        proof {
            assert(rows_view(rows@) =~= rows_view(before).push(views(row@)));
            assert(rows_view(rows@) =~= spec_rows(node_views(nodes@), now).take(i + 1));
        }
        i += 1;
    }
    assert(spec_rows(node_views(nodes@), now).take(i as int) =~= spec_rows(
        node_views(nodes@),
        now,
    ));
    rows
}

/// A session as a document: `container_id`, `user`, `door`, `node`,
/// `command` and `since`, with null for what a session lacks.
pub open spec fn spec_node_json(node: WhoNodeView) -> JsonView {
    JsonView::Object(
        seq![
            ("container_id"@, JsonView::Text(node.container_id)),
            ("user"@, JsonView::Text(node.user)),
            ("door"@, JsonView::Text(node.door)),
            (
                "node"@,
                match node.node {
                    Some(n) => JsonView::Number(Some(n as i64)),
                    None => JsonView::Null,
                },
            ),
            (
                "command"@,
                match node.command {
                    Some(command) => JsonView::Text(command),
                    None => JsonView::Null,
                },
            ),
            ("since"@, JsonView::Number(Some(node.since))),
        ],
    )
}

/// The sessions as a document: the array of the sessions.
pub open spec fn spec_who_json(nodes: Seq<WhoNodeView>) -> JsonView {
    JsonView::Array(nodes.map_values(|node: WhoNodeView| spec_node_json(node)))
}

/// A session as a document.
pub fn node_json(node: &WhoNode) -> (json: Json)
    ensures
        json@ == spec_node_json(node@),
{
    let number = match node.node {
        Some(n) => Json::Number(Some(n as i64)),
        None => Json::Null,
    };
    let command = match &node.command {
        Some(command) => Json::Text(command.clone()),
        None => Json::Null,
    };
    let ghost number_view = number@;
    let ghost command_view = command@;
    proof {
        assert(number_view == match node@.node {
            Some(n) => JsonView::Number(Some(n as i64)),
            None => JsonView::Null,
        });
        assert(command_view == match node@.command {
            Some(c) => JsonView::Text(c),
            None => JsonView::Null,
        });
    }
    let mut members: Vec<(String, Json)> = Vec::new();
    members.push(("container_id".to_owned(), Json::Text(node.container_id.clone())));
    members.push(("user".to_owned(), Json::Text(node.user.clone())));
    members.push(("door".to_owned(), Json::Text(node.door.clone())));
    members.push(("node".to_owned(), number));
    members.push(("command".to_owned(), command));
    members.push(("since".to_owned(), Json::Number(Some(node.since))));
    proof {
        lemma_members_view(members@);
        assert(crate::json::members_view(members@) =~= seq![
            ("container_id"@, JsonView::Text(node.container_id@)),
            ("user"@, JsonView::Text(node.user@)),
            ("door"@, JsonView::Text(node.door@)),
            ("node"@, number_view),
            ("command"@, command_view),
            ("since"@, JsonView::Number(Some(node.since))),
        ]);
        assert(crate::json::members_view(members@) =~= spec_node_json(node@)->Object_0);
    }
    Json::Object(members)
}

/// The sessions as a document.
pub fn who_json(nodes: &Vec<WhoNode>) -> (json: Json)
    ensures
        json@ == spec_who_json(node_views(nodes@)),
{
    let ghost wanted = node_views(nodes@).map_values(|node: WhoNodeView| spec_node_json(node));
    let mut items: Vec<Json> = Vec::new();
    let mut i: usize = 0;
    proof {
        lemma_items_view(items@);
        assert(crate::json::items_view(items@) =~= wanted.take(0));
    }
    while i < nodes.len()
        invariant
            i <= nodes.len(),
            wanted == node_views(nodes@).map_values(|node: WhoNodeView| spec_node_json(node)),
            crate::json::items_view(items@) == wanted.take(i as int),
        decreases nodes.len() - i,
    {
        let ghost before = items@;
        let item = node_json(&nodes[i]);
        items.push(item);
        proof {
            assert(items@.drop_last() =~= before);
            assert(crate::json::items_view(items@) =~= wanted.take(i + 1));
        }
        i += 1;
    }
    assert(wanted.take(i as int) =~= wanted);
    Json::Array(items)
}

/// What is said where nobody plays.
pub open spec fn nobody() -> Seq<char> {
    "Nobody is playing anything right now. How boring."@
}

/// The list of sessions as the text of a format.
pub open spec fn spec_written(format: OutputFormat, nodes: Seq<WhoNodeView>) -> Result<
    Seq<char>,
    DoorErrorView,
> {
    let value = value_of(spec_who_json(nodes));
    let text = match format {
        OutputFormat::JSON => json_text(value),
        OutputFormat::YAML => yaml_text(value),
    };
    match text {
        Some(t) => Ok(t),
        None => Err(DoorErrorView::Unwritable),
    }
}

/// The header of the table of sessions.
pub open spec fn spec_header() -> Seq<Seq<char>> {
    seq!["User"@, "Door"@, "Node"@, "Duration"@]
}

/// The report on the sessions at the time `now`: in a format, the list as
/// the text of the format; else the sentence that nobody plays where the
/// list is empty, and otherwise the table of the rows.
pub open spec fn spec_report(
    format: Option<OutputFormat>,
    nodes: Seq<WhoNodeView>,
    now: i64,
) -> Result<Seq<char>, DoorErrorView> {
    match format {
        Some(f) => spec_written(f, nodes),
        None => if nodes.len() == 0 {
            Ok(nobody())
        } else {
            Ok(table_text(spec_header(), spec_rows(nodes, now)))
        },
    }
}

/// The header of the table of sessions.
pub fn who_header() -> (header: Vec<String>)
    ensures
        views(header@) == spec_header(),
{
    let mut header: Vec<String> = Vec::new();
    header.push("User".to_owned());
    header.push("Door".to_owned());
    header.push("Node".to_owned());
    header.push("Duration".to_owned());
    assert(views(header@) =~= spec_header());
    header
}

/// The report on the sessions at the time `now`, as text to print.
pub fn print_who(format: &Option<OutputFormat>, nodes: &Vec<WhoNode>, now: i64) -> (report: Result<
    String,
    DoorError,
>)
    ensures
        crate::dos::text_result(report) == spec_report(*format, node_views(nodes@), now),
{
    match format {
        Some(OutputFormat::JSON) => match who_json(nodes).to_json() {
            Some(text) => Ok(text),
            None => Err(DoorError::Unwritable),
        },
        Some(OutputFormat::YAML) => match who_json(nodes).to_yaml() {
            Some(text) => Ok(text),
            None => Err(DoorError::Unwritable),
        },
        None => {
            if nodes.len() == 0 {
                Ok("Nobody is playing anything right now. How boring.".to_owned())
            } else {
                Ok(render_table(who_header(), who_rows(nodes, now)))
            }
        },
    }
}

/// What a request to list the sessions leads to at the time `now`: the
/// error of the listing, or the report on its sessions.
pub open spec fn spec_who_command(
    args: WhoArgs,
    code: Option<i32>,
    output: Seq<u8>,
    now: i64,
) -> Result<Seq<char>, DoorErrorView> {
    match spec_who(code, output) {
        Ok(nodes) => spec_report(args.format, nodes, now),
        Err(error) => Err(error),
    }
}

/// The report on who is playing at the time `now`, from the exit code of
/// the listing command and what it printed.
pub fn who_command_at(args: &WhoArgs, code: Option<i32>, output: Vec<u8>, now: i64) -> (report:
    Result<String, DoorError>)
    ensures
        crate::dos::text_result(report) == spec_who_command(*args, code, output@, now),
{
    match who(code, output) {
        Ok(nodes) => print_who(&args.format, &nodes, now),
        Err(error) => Err(error),
    }
}

/// The report on who is playing now: `who_command_at` at the time of the
/// call.
pub fn who_command(args: &WhoArgs, code: Option<i32>, output: Vec<u8>) -> (report: Result<
    String,
    DoorError,
>)
    ensures
        exists|now: i64|
            crate::dos::text_result(report) == #[trigger] spec_who_command(
                *args,
                code,
                output@,
                now,
            ),
{
    let now = unix_time();
    let report = who_command_at(args, code, output, now);
    assert(crate::dos::text_result(report) == spec_who_command(*args, code, output@, now));
    report
}

// ---------------------------------------------------------------------------
// What is written is what is read
// ---------------------------------------------------------------------------

/// The keys of the labels differ from each other.
proof fn lemma_label_keys()
    ensures
        "doorman.door"@ != "doorman.node"@,
        "doorman.door"@ != "doorman.user"@,
        "doorman.door"@ != "doorman.rundir"@,
        "doorman.door"@ != "doorman.command"@,
        "doorman.node"@ != "doorman.user"@,
        "doorman.node"@ != "doorman.rundir"@,
        "doorman.node"@ != "doorman.command"@,
        "doorman.user"@ != "doorman.rundir"@,
        "doorman.user"@ != "doorman.command"@,
        "doorman.rundir"@ != "doorman.command"@,
{
    reveal_strlit("doorman.door");
    reveal_strlit("doorman.node");
    reveal_strlit("doorman.user");
    reveal_strlit("doorman.rundir");
    reveal_strlit("doorman.command");
    assert("doorman.door"@[8] == 'd');
    assert("doorman.node"@[8] == 'n');
    assert("doorman.user"@[8] == 'u');
    assert("doorman.rundir"@.len() == 14);
    assert("doorman.command"@.len() == 15);
    assert("doorman.door"@.len() == 12);
    assert("doorman.node"@.len() == 12);
    assert("doorman.user"@.len() == 12);
}

/// The labels that a play session puts on its container are read back as
/// that session: its user, its door and its node.
pub proof fn lemma_play_labels_read_back(
    session: crate::door::Session,
    node: i8,
    container_id: Seq<char>,
    since: i64,
)
    ensures
        spec_session(container_id, session.spec_labels(node), since) == Ok::<WhoNodeView, Fault>(
            WhoNodeView {
                container_id,
                user: session.config.user.username@,
                door: session.door.name@,
                node: Some(node),
                command: None,
                since,
            },
        ),
{
    lemma_label_keys();
    crate::text::lemma_node_round_trip(node);
    let labels = session.spec_labels(node);
    reveal_with_fuel(last_value, 5);
    assert(labels.last() == labels[3]);
    assert(labels.drop_last().last() == labels[2]);
    assert(labels.drop_last().drop_last().last() == labels[1]);
    assert(labels.drop_last().drop_last().drop_last().last() == labels[0]);
    assert(labels.drop_last().drop_last().drop_last().drop_last().len() == 0);
}

/// The labels that a maintenance run puts on its container are read back
/// as that run: its user, its door and its operation, without a node.
pub proof fn lemma_maintenance_labels_read_back(
    run: crate::door::Maintenance,
    container_id: Seq<char>,
    since: i64,
)
    ensures
        spec_session(container_id, run.spec_labels(), since) == Ok::<WhoNodeView, Fault>(
            WhoNodeView {
                container_id,
                user: run.config.user.username@,
                door: run.door.name@,
                node: None,
                command: Some(run.command@),
                since,
            },
        ),
{
    lemma_label_keys();
    let labels = run.spec_labels();
    reveal_with_fuel(last_value, 5);
    assert(labels.last() == labels[3]);
    assert(labels.drop_last().last() == labels[2]);
    assert(labels.drop_last().drop_last().last() == labels[1]);
    assert(labels.drop_last().drop_last().drop_last().last() == labels[0]);
    assert(labels.drop_last().drop_last().drop_last().drop_last().len() == 0);
}

/// A label written as `key=value`.
pub open spec fn spec_label_text(label: (Seq<char>, Seq<char>)) -> Seq<char> {
    label.0 + seq!['='] + label.1
}

/// Labels written as the generic listing writes them: each as `key=value`,
/// with commas between them.
pub open spec fn spec_labels_text(labels: Seq<(Seq<char>, Seq<char>)>) -> Seq<char>
    decreases labels.len(),
{
    if labels.len() == 0 {
        Seq::empty()
    } else if labels.len() == 1 {
        spec_label_text(labels[0])
    } else {
        spec_label_text(labels[0]) + seq![','] + spec_labels_text(labels.skip(1))
    }
}

/// Whether the labels can be written as a list: no key holds a comma or an
/// equal sign, and no value holds a comma.
pub open spec fn plain_labels(labels: Seq<(Seq<char>, Seq<char>)>) -> bool {
    forall|i: int|
        0 <= i < labels.len() ==> {
            &&& !(#[trigger] labels[i]).0.contains(',')
            &&& !labels[i].0.contains('=')
            &&& !labels[i].1.contains(',')
        }
}

/// Labels that are written as a list are read back as they were.
pub proof fn lemma_labels_text_read_back(labels: Seq<(Seq<char>, Seq<char>)>)
    requires
        labels.len() > 0,
        plain_labels(labels),
    ensures
        spec_label_entries(spec_labels_text(labels)) == labels,
    decreases labels.len(),
{
    let first = labels[0];
    let item = spec_label_text(first);
    let text = spec_labels_text(labels);
    crate::text::lemma_position_after(first.0, '=', first.1);
    assert(!item.contains(',')) by {
        if item.contains(',') {
            let i = choose|i: int| 0 <= i < item.len() && item[i] == ',';
            if i < first.0.len() {
                assert(first.0[i] == ',');
                assert(first.0.contains(','));
            } else if i > first.0.len() {
                assert(first.1[i - first.0.len() - 1] == ',');
                assert(first.1.contains(','));
            }
        }
    }
    if labels.len() == 1 {
        crate::text::lemma_position_absent(item, ',');
        assert(pieces(text, ',') =~= seq![item]);
        assert(spec_label_entries(text) =~= labels);
    } else {
        let rest = labels.skip(1);
        assert forall|i: int| 0 <= i < rest.len() implies {
            &&& !(#[trigger] rest[i]).0.contains(',')
            &&& !rest[i].0.contains('=')
            &&& !rest[i].1.contains(',')
        } by {
            assert(rest[i] == labels[i + 1]);
        }
        lemma_labels_text_read_back(rest);
        let tail = spec_labels_text(rest);
        crate::text::lemma_position_after(item, ',', tail);
        assert(text.skip(crate::text::position(text, ',') + 1) =~= tail);
        assert(pieces(text, ',') =~= seq![item] + pieces(tail, ','));
        assert(spec_label_entries(text) =~= seq![first] + spec_label_entries(tail));
        assert(seq![first] + rest =~= labels);
    }
}

/// The two shapes of a listing tell of the same session: labels that the
/// generic listing writes as a list describe the session that they describe
/// as podman's listing gives them.
pub proof fn lemma_both_shapes_agree(
    container_id: Seq<char>,
    labels: Seq<(Seq<char>, Seq<char>)>,
    since: i64,
)
    requires
        labels.len() > 0,
        plain_labels(labels),
    ensures
        spec_session(container_id, spec_label_entries(spec_labels_text(labels)), since)
            == spec_session(container_id, labels, since),
{
    lemma_labels_text_read_back(labels);
}

/// An entry that is left out leaves the list as it is without the entry.
pub proof fn lemma_left_out(
    before: Seq<Result<WhoNodeView, Fault>>,
    fault: Fault,
    after: Seq<Result<WhoNodeView, Fault>>,
)
    requires
        fault != Fault::BadNode,
    ensures
        spec_gather(before + seq![Err::<WhoNodeView, Fault>(fault)] + after) == spec_gather(
            before + after,
        ),
    decreases after.len(),
{
    let with = before + seq![Err::<WhoNodeView, Fault>(fault)] + after;
    let without = before + after;
    if after.len() == 0 {
        assert(with.drop_last() =~= before);
        assert(without =~= before);
    } else {
        lemma_left_out(before, fault, after.drop_last());
        assert(with.drop_last() =~= before + seq![Err::<WhoNodeView, Fault>(fault)]
            + after.drop_last());
        assert(without.drop_last() =~= before + after.drop_last());
        assert(with.last() == after.last());
        assert(without.last() == after.last());
    }
}

/// A container whose labels lack the user or the door is no session, and
/// the list of sessions is the same with it and without it.
pub proof fn lemma_foreign_container_left_out(
    container_id: Seq<char>,
    labels: Seq<(Seq<char>, Seq<char>)>,
    since: i64,
    before: Seq<Result<WhoNodeView, Fault>>,
    after: Seq<Result<WhoNodeView, Fault>>,
)
    requires
        last_value(labels, "doorman.user"@) is None || last_value(labels, "doorman.door"@) is None,
    ensures
        spec_session(container_id, labels, since) == Err::<WhoNodeView, Fault>(Fault::NotASession),
        spec_gather(before + seq![spec_session(container_id, labels, since)] + after)
            == spec_gather(before + after),
{
    lemma_left_out(before, Fault::NotASession, after);
}

} // verus!
