//! Hand-off of whole-prompt compression telemetry from the agent loop to the kernel.
//!
//! The agent loop records one snapshot per turn and agent; the kernel takes it right after
//! the loop returns. Taking is destructive, so a snapshot is read at most once, and a new
//! record for the same agent overwrites an unread one. Agents never see each other's
//! snapshots.

use vstd::prelude::*;
use dashmap::DashMap;
use crate::text::owned;

verus! {

/// Number of most recent turns kept verbatim before older turns are eligible for compaction.
pub const RECENT_TURN_THRESHOLD: usize = 4;

/// Snapshot of one turn's whole-prompt compression telemetry.
#[derive(Debug, Clone, Copy, Default)]
pub struct ComposeSnapshot {
    /// Estimated input tokens before compression, summed across all segments.
    pub original_tokens: u64,
    /// Estimated input tokens after per-segment compression.
    pub compressed_tokens: u64,
}

impl ComposeSnapshot {
    /// Tokens removed by the compiler this turn (saturating; never negative).
    pub fn tokens_saved(&self) -> (r: u64)
        ensures
            r == if self.original_tokens >= self.compressed_tokens {
                (self.original_tokens - self.compressed_tokens) as u64
            } else {
                0
            },
    {
        self.original_tokens.saturating_sub(self.compressed_tokens)
    }
}

/// One turn's snapshot together with the active compiler tier (e.g. `heuristic`).
#[derive(Debug, Clone)]
pub struct ComposeTurn {
    pub snapshot: ComposeSnapshot,
    pub tier: String,
}

/// What a recorded turn holds: the two token counts and the tier's characters.
pub open spec fn turn_view(t: ComposeTurn) -> (u64, u64, Seq<char>) {
    (t.snapshot.original_tokens, t.snapshot.compressed_tokens, t.tier@)
}

/// A map from agent id to its unread compose turn.
pub type TurnMap = DashMap<String, ComposeTurn>;

/// Name for what a map of compose turns holds: each agent id's characters and its turn.
pub uninterp spec fn compose_turns(m: TurnMap) -> Map<Seq<char>, ComposeTurn>;

/// `DashMap::new`: a map that holds nothing.
#[verifier::external_body]
fn new_turn_map() -> (r: TurnMap)
    ensures
        compose_turns(r).dom() == Set::<Seq<char>>::empty(),
{
    DashMap::new()
}

/// `DashMap::insert`: stores `turn` under `agent_id`, replacing any earlier turn.
#[verifier::external_body]
fn insert_turn(m: &mut TurnMap, agent_id: &str, turn: ComposeTurn)
    ensures
        compose_turns(*final(m)) == compose_turns(*old(m)).insert(agent_id@, turn),
{
    m.insert(agent_id.to_string(), turn);
}

/// `DashMap::remove`: takes out the turn stored under `agent_id`, if any.
#[verifier::external_body]
fn remove_turn(m: &mut TurnMap, agent_id: &str) -> (r: Option<ComposeTurn>)
    ensures
        compose_turns(*final(m)) == compose_turns(*old(m)).remove(agent_id@),
        match r {
            Some(t) => compose_turns(*old(m)).dom().contains(agent_id@) && compose_turns(*old(m))[agent_id@] == t,
            None => !compose_turns(*old(m)).dom().contains(agent_id@),
        },
{
    m.remove(agent_id).map(|(_, t)| t)
}

/// The per-agent store of unread compose snapshots.
pub struct ComposeStore {
    turns: TurnMap,
}

impl ComposeStore {
    /// For each agent id with an unread snapshot, what that snapshot holds.
    pub closed spec fn view(&self) -> Map<Seq<char>, (u64, u64, Seq<char>)> {
        compose_turns(self.turns).map_values(|t: ComposeTurn| turn_view(t))
    }

    /// A store with no snapshots.
    pub fn new() -> (r: Self)
        ensures
            r.view() == Map::<Seq<char>, (u64, u64, Seq<char>)>::empty(),
    {
        let r = ComposeStore { turns: new_turn_map() };
        assert(r.view() =~= Map::<Seq<char>, (u64, u64, Seq<char>)>::empty());
        r
    }
}

/// Record one turn's whole-prompt compression telemetry. Overwrites any prior unread
/// snapshot for the same `agent_id` (the most recent turn always wins).
pub fn record_compose_turn(
    store: &mut ComposeStore,
    agent_id: &str,
    original_tokens: u64,
    compressed_tokens: u64,
    tier: &str,
)
    ensures
        final(store).view() == old(store).view().insert(
            agent_id@,
            (original_tokens, compressed_tokens, tier@),
        ),
{
    let turn = ComposeTurn {
        snapshot: ComposeSnapshot { original_tokens, compressed_tokens },
        tier: owned(tier),
    };
    let ghost t = turn;
    insert_turn(&mut store.turns, agent_id, turn);
    assert(store.view() =~= old(store).view().insert(agent_id@, turn_view(t)));
}

/// Consume the most recent compose snapshot for `agent_id`, removing it from the store.
/// `None` when nothing was recorded since the last take.
pub fn take_compose_turn(store: &mut ComposeStore, agent_id: &str) -> (r: Option<ComposeTurn>)
    ensures
        final(store).view() == old(store).view().remove(agent_id@),
        match r {
            Some(t) => old(store).view().dom().contains(agent_id@) && old(store).view()[agent_id@]
                == turn_view(t),
            None => !old(store).view().dom().contains(agent_id@),
        },
{
    let r = remove_turn(&mut store.turns, agent_id);
    assert(store.view() =~= old(store).view().remove(agent_id@));
    r
}

/// A take right after a record for the same agent returns what was recorded, and leaves
/// nothing for that agent.
pub proof fn law_take_returns_last_record(
    store: Map<Seq<char>, (u64, u64, Seq<char>)>,
    agent_id: Seq<char>,
    turn: (u64, u64, Seq<char>),
)
    ensures
        store.insert(agent_id, turn).dom().contains(agent_id),
        store.insert(agent_id, turn)[agent_id] == turn,
        !store.insert(agent_id, turn).remove(agent_id).dom().contains(agent_id),
{
}

/// Recording twice for one agent keeps only the second snapshot.
pub proof fn law_record_overwrites(
    store: Map<Seq<char>, (u64, u64, Seq<char>)>,
    agent_id: Seq<char>,
    first: (u64, u64, Seq<char>),
    second: (u64, u64, Seq<char>),
)
    ensures
        store.insert(agent_id, first).insert(agent_id, second) == store.insert(agent_id, second),
{
    assert(store.insert(agent_id, first).insert(agent_id, second) =~= store.insert(agent_id, second));
}

/// Recording or taking for one agent leaves every other agent's snapshot as it was.
pub proof fn law_agents_isolated(
    store: Map<Seq<char>, (u64, u64, Seq<char>)>,
    agent_id: Seq<char>,
    other: Seq<char>,
    turn: (u64, u64, Seq<char>),
)
    requires
        agent_id != other,
    ensures
        store.insert(agent_id, turn).dom().contains(other) == store.dom().contains(other),
        store.insert(agent_id, turn)[other] == store[other],
        store.remove(agent_id).dom().contains(other) == store.dom().contains(other),
        store.remove(agent_id)[other] == store[other],
{
}

} // verus!
