//! The game state that the agent keeps from the server's messages.
use vstd::hash_map::StringHashMap;
use vstd::prelude::*;

use crate::protocol::ServerMsg;

verus! {

/// A resource lying on the map.
#[derive(Debug, Clone, Copy, PartialEq, Eq)]
pub struct ResourceInfo {
    pub resource_id: u128,
    pub x: u16,
    pub y: u16,
    pub expires_at: u64,
    pub value: u32,
}

/// An agent taking part in the game.
#[derive(Debug, Clone)]
pub struct AgentInfo {
    pub id: u128,
    pub name: String,
    pub team: String,
    pub score: u32,
    pub x: u16,
    pub y: u16,
}

/// The mathematical value of an [`AgentInfo`]: its strings as character sequences.
pub struct AgentView {
    pub id: u128,
    pub name: Seq<char>,
    pub team: Seq<char>,
    pub score: u32,
    pub x: u16,
    pub y: u16,
}

impl View for AgentInfo {
    type V = AgentView;

    open spec fn view(&self) -> AgentView {
        AgentView {
            id: self.id,
            name: self.name@,
            team: self.team@,
            score: self.score,
            x: self.x,
            y: self.y,
        }
    }
}

/// Everything the agent knows of the game.
pub struct GameState {
    pub agent_id: u128,
    pub tick: u64,
    pub position: (u16, u16),
    pub map_size: (u16, u16),
    pub goal: u32,
    pub obstacles: Vec<(u16, u16)>,
    pub resources: Vec<ResourceInfo>,
    pub agents: Vec<AgentInfo>,
    /// For each team, the best score among its agents.
    pub team_scores: StringHashMap<u32>,
}

/// The resource that a `(id, x, y, expires_at, value)` entry of a snapshot describes.
pub open spec fn resource_of(t: (u128, u16, u16, u64, u32)) -> ResourceInfo {
    ResourceInfo { resource_id: t.0, x: t.1, y: t.2, expires_at: t.3, value: t.4 }
}

/// The agent that an `(id, name, team, score, x, y)` entry of a snapshot describes.
pub open spec fn agent_of(t: (u128, String, String, u32, u16, u16)) -> AgentView {
    AgentView { id: t.0, name: t.1@, team: t.2@, score: t.3, x: t.4, y: t.5 }
}

/// The agents of a state, as values.
pub open spec fn agent_views(agents: Seq<AgentInfo>) -> Seq<AgentView> {
    agents.map_values(|a: AgentInfo| a@)
}

/// For each team that has an agent in `agents`, the best score of its agents
/// (a team whose agents all score 0 maps to 0).
pub open spec fn team_best(agents: Seq<AgentView>) -> Map<Seq<char>, u32>
    decreases agents.len(),
{
    if agents.len() == 0 {
        Map::empty()
    } else {
        let before = team_best(agents.drop_last());
        let a = agents.last();
        let prev: u32 = if before.contains_key(a.team) {
            before[a.team]
        } else {
            0
        };
        before.insert(a.team, if a.score > prev { a.score } else { prev })
    }
}

/// `k` is the first index of `agents` that holds the agent `id`.
pub open spec fn is_first_with_id(agents: Seq<AgentView>, id: u128, k: int) -> bool {
    &&& 0 <= k < agents.len()
    &&& agents[k].id == id
    &&& forall|j: int| 0 <= j < k ==> agents[j].id != id
}

/// The position of the agent `id` as `agents` reports it (its first entry),
/// or `current` when `agents` does not hold it.
pub open spec fn reported_position(agents: Seq<AgentView>, id: u128, current: (u16, u16)) -> (u16, u16) {
    if exists|k: int| is_first_with_id(agents, id, k) {
        let k = choose|k: int| is_first_with_id(agents, id, k);
        (agents[k].x, agents[k].y)
    } else {
        current
    }
}

/// What `GameState::update` makes of the state `pre` on the message `msg`.
pub open spec fn updated(pre: GameState, post: GameState, msg: ServerMsg) -> bool {
    match msg {
        ServerMsg::State { tick, width, height, goal, obstacles, resources, agents } => {
            let agents_now = agents@.map_values(|t: (u128, String, String, u32, u16, u16)| agent_of(t));
            &&& post.agent_id == pre.agent_id
            &&& post.tick == tick
            &&& post.map_size == (width, height)
            &&& post.goal == goal
            &&& post.obstacles@ == obstacles@
            &&& post.resources@ == resources@.map_values(|t: (u128, u16, u16, u64, u32)| resource_of(t))
            &&& agent_views(post.agents@) == agents_now
            &&& post.team_scores@ == team_best(agents_now)
            &&& post.position == reported_position(agents_now, pre.agent_id, pre.position)
        },
        ServerMsg::PowResult { resource_id } => {
            &&& post.resources@ == pre.resources@.filter(|r: ResourceInfo| r.resource_id != resource_id)
            &&& post.agent_id == pre.agent_id
            &&& post.tick == pre.tick
            &&& post.position == pre.position
            &&& post.map_size == pre.map_size
            &&& post.goal == pre.goal
            &&& post.obstacles@ == pre.obstacles@
            &&& agent_views(post.agents@) == agent_views(pre.agents@)
            &&& post.team_scores@ == pre.team_scores@
        },
        _ => post == pre,
    }
}

/// Whether the cell `(x, y)` is closed to the agent of `s`: off the map, an
/// obstacle, another agent, or a resource.
pub open spec fn blocked(s: GameState, x: u16, y: u16) -> bool {
    ||| x >= s.map_size.0
    ||| y >= s.map_size.1
    ||| s.obstacles@.contains((x, y))
    ||| exists|i: int|
        #![trigger s.agents@[i]]
        0 <= i < s.agents@.len() && s.agents@[i].id != s.agent_id && s.agents@[i].x == x
            && s.agents@[i].y == y
    ||| exists|i: int|
        #![trigger s.resources@[i]]
        0 <= i < s.resources@.len() && s.resources@[i].x == x && s.resources@[i].y == y
}

/// Each team's recorded score is the best score of its agents: every agent's
/// team is recorded with at least that agent's score, and every recorded team
/// has an agent whose score is exactly the recorded one.
pub proof fn lemma_team_scores_are_best(agents: Seq<AgentView>)
    ensures
        forall|i: int|
            #![trigger agents[i]]
            0 <= i < agents.len() ==> team_best(agents).contains_key(agents[i].team)
                && team_best(agents)[agents[i].team] >= agents[i].score,
        forall|t: Seq<char>|
            #[trigger] team_best(agents).contains_key(t) ==> exists|i: int|
                #![trigger agents[i]]
                0 <= i < agents.len() && agents[i].team == t && team_best(agents)[t]
                    == agents[i].score,
    decreases agents.len(),
{
    if agents.len() > 0 {
        let before = agents.drop_last();
        lemma_team_scores_are_best(before);
        let m = team_best(agents);
        let last = agents.last();
        assert forall|i: int| #![trigger agents[i]] 0 <= i < agents.len() implies m.contains_key(
            agents[i].team,
        ) && m[agents[i].team] >= agents[i].score by {
            if i < agents.len() - 1 {
                assert(agents[i] == before[i]);
            }
        }
        assert forall|t: Seq<char>| #[trigger] m.contains_key(t) implies exists|i: int|
            #![trigger agents[i]]
            0 <= i < agents.len() && agents[i].team == t && m[t] == agents[i].score by {
            if t == last.team {
                if team_best(before).contains_key(t) && team_best(before)[t] >= last.score {
                    let j = choose|j: int|
                        #![trigger before[j]]
                        0 <= j < before.len() && before[j].team == t && team_best(before)[t]
                            == before[j].score;
                    assert(agents[j] == before[j]);
                } else {
                    assert(agents[agents.len() - 1] == last);
                }
            } else {
                let j = choose|j: int|
                    #![trigger before[j]]
                    0 <= j < before.len() && before[j].team == t && team_best(before)[t]
                        == before[j].score;
                assert(agents[j] == before[j]);
            }
        }
    }
}

/// A claimed resource leaves the map and no other resource does: after the
/// server announces that `resource_id` was claimed, no resource of that id is
/// left, and the resources of other ids are all still there, in their order.
pub proof fn lemma_claimed_resource_leaves(pre: GameState, post: GameState, resource_id: u128)
    requires
        updated(pre, post, ServerMsg::PowResult { resource_id }),
    ensures
        forall|i: int|
            0 <= i < post.resources@.len() ==> (#[trigger] post.resources@[i]).resource_id
                != resource_id,
        forall|j: int|
            0 <= j < pre.resources@.len() && (#[trigger] pre.resources@[j]).resource_id
                != resource_id ==> post.resources@.contains(pre.resources@[j]),
        post.resources@ == pre.resources@.filter(|r: ResourceInfo| r.resource_id != resource_id),
{
    broadcast use vstd::seq_lib::group_filter_ensures;

    let keep = |r: ResourceInfo| r.resource_id != resource_id;
    assert(post.resources@ == pre.resources@.filter(keep));
    assert forall|i: int| 0 <= i < post.resources@.len() implies (
    #[trigger] post.resources@[i]).resource_id != resource_id by {
        assert(keep(pre.resources@.filter(keep)[i]));
    }
}

/// What a snapshot leaves in the state, entry by entry: its tick, size, goal
/// and obstacles; its resources and agents field by field in their order; each
/// team of an agent recorded with the best score of its agents and no other
/// team; and the agent's own position taken from the first entry that holds
/// the agent's id, whatever the position was before, or kept when no entry
/// holds it.
pub proof fn lemma_snapshot_replaces_state(
    pre: GameState,
    post: GameState,
    tick: u64,
    width: u16,
    height: u16,
    goal: u32,
    obstacles: Vec<(u16, u16)>,
    resources: Vec<(u128, u16, u16, u64, u32)>,
    agents: Vec<(u128, String, String, u32, u16, u16)>,
)
    requires
        updated(
            pre,
            post,
            ServerMsg::State { tick, width, height, goal, obstacles, resources, agents },
        ),
    ensures
        post.agent_id == pre.agent_id,
        post.tick == tick,
        post.map_size.0 == width && post.map_size.1 == height,
        post.goal == goal,
        post.obstacles@ == obstacles@,
        post.resources@.len() == resources@.len(),
        forall|i: int|
            #![trigger post.resources@[i]]
            0 <= i < resources@.len() ==> {
                &&& post.resources@[i].resource_id == resources@[i].0
                &&& post.resources@[i].x == resources@[i].1
                &&& post.resources@[i].y == resources@[i].2
                &&& post.resources@[i].expires_at == resources@[i].3
                &&& post.resources@[i].value == resources@[i].4
            },
        post.agents@.len() == agents@.len(),
        forall|i: int|
            #![trigger post.agents@[i]]
            0 <= i < agents@.len() ==> {
                &&& post.agents@[i].id == agents@[i].0
                &&& post.agents@[i].name@ == agents@[i].1@
                &&& post.agents@[i].team@ == agents@[i].2@
                &&& post.agents@[i].score == agents@[i].3
                &&& post.agents@[i].x == agents@[i].4
                &&& post.agents@[i].y == agents@[i].5
            },
        forall|i: int|
            #![trigger agents@[i]]
            0 <= i < agents@.len() ==> post.team_scores@.contains_key(agents@[i].2@)
                && post.team_scores@[agents@[i].2@] >= agents@[i].3,
        forall|t: Seq<char>|
            #[trigger] post.team_scores@.contains_key(t) ==> exists|i: int|
                #![trigger agents@[i]]
                0 <= i < agents@.len() && agents@[i].2@ == t && post.team_scores@[t]
                    == agents@[i].3,
        forall|k: int|
            0 <= k < agents@.len() && (#[trigger] agents@[k]).0 == pre.agent_id && (forall|j: int|
                0 <= j < k ==> agents@[j].0 != pre.agent_id) ==> post.position == (
            agents@[k].4, agents@[k].5),
        (forall|j: int| 0 <= j < agents@.len() ==> agents@[j].0 != pre.agent_id)
            ==> post.position == pre.position,
{
    let now = agents@.map_values(|t: (u128, String, String, u32, u16, u16)| agent_of(t));
    assert(now.len() == agents@.len());
    assert(agent_views(post.agents@).len() == post.agents@.len());
    assert forall|i: int| #![trigger post.agents@[i]] 0 <= i < agents@.len() implies {
        &&& post.agents@[i].id == agents@[i].0
        &&& post.agents@[i].name@ == agents@[i].1@
        &&& post.agents@[i].team@ == agents@[i].2@
        &&& post.agents@[i].score == agents@[i].3
        &&& post.agents@[i].x == agents@[i].4
        &&& post.agents@[i].y == agents@[i].5
    } by {
        assert(agent_views(post.agents@)[i] == now[i]);
    }
    assert forall|i: int| #![trigger post.resources@[i]] 0 <= i < resources@.len() implies {
        &&& post.resources@[i].resource_id == resources@[i].0
        &&& post.resources@[i].x == resources@[i].1
        &&& post.resources@[i].y == resources@[i].2
        &&& post.resources@[i].expires_at == resources@[i].3
        &&& post.resources@[i].value == resources@[i].4
    } by {
        assert(post.resources@[i] == resource_of(resources@[i]));
    }
    lemma_team_scores_are_best(now);
    assert forall|i: int| #![trigger agents@[i]] 0 <= i < agents@.len() implies post.team_scores@.contains_key(
        agents@[i].2@,
    ) && post.team_scores@[agents@[i].2@] >= agents@[i].3 by {
        assert(now[i] == agent_of(agents@[i]));
    }
    assert forall|t: Seq<char>| #[trigger] post.team_scores@.contains_key(t) implies exists|i: int|
        #![trigger agents@[i]]
        0 <= i < agents@.len() && agents@[i].2@ == t && post.team_scores@[t] == agents@[i].3 by {
        let i = choose|i: int|
            #![trigger now[i]]
            0 <= i < now.len() && now[i].team == t && team_best(now)[t] == now[i].score;
        assert(now[i] == agent_of(agents@[i]));
    }
    assert forall|k: int|
        0 <= k < agents@.len() && (#[trigger] agents@[k]).0 == pre.agent_id && (forall|j: int|
            0 <= j < k ==> agents@[j].0 != pre.agent_id) implies post.position == (
    agents@[k].4, agents@[k].5) by {
        assert(now[k] == agent_of(agents@[k]));
        assert forall|j: int| 0 <= j < k implies now[j].id != pre.agent_id by {
            assert(now[j] == agent_of(agents@[j]));
        }
        assert(is_first_with_id(now, pre.agent_id, k));
        let c = choose|c: int| is_first_with_id(now, pre.agent_id, c);
        assert(c == k) by {
            if c < k {
                assert(now[c].id != pre.agent_id);
            } else if c > k {
                assert(now[k].id != pre.agent_id);
            }
        }
    }
    if forall|j: int| 0 <= j < agents@.len() ==> agents@[j].0 != pre.agent_id {
        assert forall|c: int| !is_first_with_id(now, pre.agent_id, c) by {
            if 0 <= c < now.len() {
                assert(now[c] == agent_of(agents@[c]));
            }
        }
    }
}

/// A claim and any message other than a snapshot leave everything but the
/// resources as it was; a message other than a snapshot or a claim changes
/// nothing at all.
pub proof fn lemma_other_messages_keep_state(pre: GameState, post: GameState, msg: ServerMsg)
    requires
        updated(pre, post, msg),
        !(msg is State),
    ensures
        post.agent_id == pre.agent_id,
        post.tick == pre.tick,
        post.position == pre.position,
        post.map_size == pre.map_size,
        post.goal == pre.goal,
        post.obstacles@ == pre.obstacles@,
        post.team_scores@ == pre.team_scores@,
        post.agents@.len() == pre.agents@.len(),
        forall|i: int|
            #![trigger post.agents@[i]]
            0 <= i < pre.agents@.len() ==> post.agents@[i]@ == pre.agents@[i]@,
        !(msg is PowResult) ==> post == pre,
{
    if msg is PowResult {
        assert(agent_views(post.agents@).len() == post.agents@.len());
        assert(agent_views(pre.agents@).len() == pre.agents@.len());
        assert forall|i: int| #![trigger post.agents@[i]] 0 <= i < pre.agents@.len() implies post.agents@[i]@
            == pre.agents@[i]@ by {
            assert(agent_views(post.agents@)[i] == agent_views(pre.agents@)[i]);
        }
    }
}

/// When a cell is blocked: off the map; an obstacle; another agent standing on
/// it; a resource lying on it. A cell on the map with none of these is free,
/// and the agent's own entries never block it.
pub proof fn lemma_blocked_cells(s: GameState, x: u16, y: u16)
    ensures
        x >= s.map_size.0 ==> blocked(s, x, y),
        y >= s.map_size.1 ==> blocked(s, x, y),
        s.obstacles@.contains((x, y)) ==> blocked(s, x, y),
        forall|i: int|
            0 <= i < s.agents@.len() && (#[trigger] s.agents@[i]).id != s.agent_id
                && s.agents@[i].x == x && s.agents@[i].y == y ==> blocked(s, x, y),
        forall|i: int|
            0 <= i < s.resources@.len() && (#[trigger] s.resources@[i]).x == x
                && s.resources@[i].y == y ==> blocked(s, x, y),
        x < s.map_size.0 && y < s.map_size.1 && !s.obstacles@.contains((x, y)) && (forall|i: int|
            0 <= i < s.agents@.len() && (#[trigger] s.agents@[i]).x == x && s.agents@[i].y == y
                ==> s.agents@[i].id == s.agent_id) && (forall|i: int|
            0 <= i < s.resources@.len() ==> !((#[trigger] s.resources@[i]).x == x
                && s.resources@[i].y == y)) ==> !blocked(s, x, y),
{
}

impl GameState {
    /// The state before the first snapshot: everything empty, the agent at `(0, 0)`.
    pub fn new(agent_id: u128) -> (s: Self)
        ensures
            s.agent_id == agent_id,
            s.tick == 0,
            s.position == (0u16, 0u16),
            s.map_size == (0u16, 0u16),
            s.goal == 0,
            s.obstacles@.len() == 0,
            s.resources@.len() == 0,
            s.agents@.len() == 0,
            s.team_scores@ == Map::<Seq<char>, u32>::empty(),
    {
        GameState {
            agent_id,
            tick: 0,
            position: (0, 0),
            map_size: (0, 0),
            goal: 0,
            obstacles: Vec::new(),
            resources: Vec::new(),
            agents: Vec::new(),
            team_scores: StringHashMap::new(),
        }
    }

    /// Takes in a message of the server: a snapshot replaces the whole state
    /// (the agent's own position taken from it when it lists the agent), a claimed
    /// resource leaves the map, and any other message changes nothing.
    pub fn update(&mut self, msg: &ServerMsg)
        ensures
            updated(*old(self), *final(self), *msg),
    {
        match msg {
            ServerMsg::State { tick, width, height, goal, obstacles, resources, agents } => {
                self.tick = *tick;
                self.map_size = (*width, *height);
                self.goal = *goal;
                self.obstacles = copy_cells(obstacles);
                self.resources = resources_from(resources);
                self.agents = agents_from(agents);
                self.team_scores = best_scores(&self.agents);
                let found = find_agent(&self.agents, self.agent_id);
                if let Some(k) = found {
                    self.position = (self.agents[k].x, self.agents[k].y);
                }
                proof {
                    let v = agent_views(self.agents@);
                    let id = self.agent_id;
                    match found {
                        Some(k) => {
                            assert(is_first_with_id(v, id, k as int));
                            let c = choose|c: int| is_first_with_id(v, id, c);
                            assert(c == k as int) by {
                                if c < k as int {
                                    assert(v[c].id != id);
                                } else if c > k as int {
                                    assert(v[k as int].id != id);
                                }
                            }
                        },
                        None => {},
                    }
                }
            },
            ServerMsg::PowResult { resource_id } => {
                self.resources = without_resource(&self.resources, *resource_id);
            },
            _ => {},
        }
    }

    /// Whether the agent may not step on `(x, y)`: the cell is off the map, an
    /// obstacle, holds another agent, or holds a resource.
    pub fn is_blocked(&self, x: u16, y: u16) -> (b: bool)
        ensures
            b == blocked(*self, x, y),
    {
        if x >= self.map_size.0 || y >= self.map_size.1 {
            return true;
        }
        let mut i: usize = 0;
        while i < self.obstacles.len()
            invariant
                0 <= i <= self.obstacles.len(),
                forall|j: int| 0 <= j < i ==> self.obstacles@[j] != (x, y),
            decreases self.obstacles.len() - i,
        {
            if self.obstacles[i].0 == x && self.obstacles[i].1 == y {
                assert(self.obstacles@[i as int] == (x, y));
                return true;
            }
            i = i + 1;
        }
        assert(!self.obstacles@.contains((x, y)));
        let mut i: usize = 0;
        while i < self.agents.len()
            invariant
                0 <= i <= self.agents.len(),
                forall|j: int|
                    #![trigger self.agents@[j]]
                    0 <= j < i ==> !(self.agents@[j].id != self.agent_id && self.agents@[j].x == x
                        && self.agents@[j].y == y),
            decreases self.agents.len() - i,
        {
            let a = &self.agents[i];
            if a.id != self.agent_id && a.x == x && a.y == y {
                return true;
            }
            i = i + 1;
        }
        let mut i: usize = 0;
        while i < self.resources.len()
            invariant
                0 <= i <= self.resources.len(),
                forall|j: int|
                    #![trigger self.resources@[j]]
                    0 <= j < i ==> !(self.resources@[j].x == x && self.resources@[j].y == y),
            decreases self.resources.len() - i,
        {
            if self.resources[i].x == x && self.resources[i].y == y {
                return true;
            }
            i = i + 1;
        }
        false
    }
}

/// A copy of a list of cells.
fn copy_cells(cells: &Vec<(u16, u16)>) -> (out: Vec<(u16, u16)>)
    ensures
        out@ == cells@,
{
    let mut out: Vec<(u16, u16)> = Vec::new();
    let mut i: usize = 0;
    while i < cells.len()
        invariant
            0 <= i <= cells.len(),
            out@ == cells@.take(i as int),
        decreases cells.len() - i,
    {
        out.push((cells[i].0, cells[i].1));
        assert(cells@.take(i + 1) == cells@.take(i as int).push(cells@[i as int]));
        i = i + 1;
    }
    assert(cells@.take(cells.len() as int) == cells@);
    out
}

/// The resources that the entries of a snapshot describe, in order.
fn resources_from(entries: &Vec<(u128, u16, u16, u64, u32)>) -> (out: Vec<ResourceInfo>)
    ensures
        out@ == entries@.map_values(|t: (u128, u16, u16, u64, u32)| resource_of(t)),
{
    let mut out: Vec<ResourceInfo> = Vec::new();
    let mut i: usize = 0;
    while i < entries.len()
        invariant
            0 <= i <= entries.len(),
            out@.len() == i,
            forall|j: int| 0 <= j < i ==> out@[j] == resource_of(#[trigger] entries@[j]),
        decreases entries.len() - i,
    {
        let t = &entries[i];
        out.push(ResourceInfo { resource_id: t.0, x: t.1, y: t.2, expires_at: t.3, value: t.4 });
        i = i + 1;
    }
    assert(out@ =~= entries@.map_values(|t: (u128, u16, u16, u64, u32)| resource_of(t)));
    out
}

/// The agents that the entries of a snapshot describe, in order.
fn agents_from(entries: &Vec<(u128, String, String, u32, u16, u16)>) -> (out: Vec<AgentInfo>)
    ensures
        agent_views(out@) == entries@.map_values(
            |t: (u128, String, String, u32, u16, u16)| agent_of(t),
        ),
{
    let mut out: Vec<AgentInfo> = Vec::new();
    let mut i: usize = 0;
    while i < entries.len()
        invariant
            0 <= i <= entries.len(),
            out@.len() == i,
            forall|j: int| 0 <= j < i ==> out@[j]@ == agent_of(#[trigger] entries@[j]),
        decreases entries.len() - i,
    {
        let t = &entries[i];
        out.push(
            AgentInfo {
                id: t.0,
                name: t.1.clone(),
                team: t.2.clone(),
                score: t.3,
                x: t.4,
                y: t.5,
            },
        );
        i = i + 1;
    }
    assert(agent_views(out@) =~= entries@.map_values(
        |t: (u128, String, String, u32, u16, u16)| agent_of(t),
    ));
    out
}

/// The best score of each team among `agents`.
fn best_scores(agents: &Vec<AgentInfo>) -> (m: StringHashMap<u32>)
    ensures
        m@ == team_best(agent_views(agents@)),
{
    let mut m: StringHashMap<u32> = StringHashMap::new();
    let ghost all = agent_views(agents@);
    let mut i: usize = 0;
    while i < agents.len()
        invariant
            0 <= i <= agents.len(),
            all == agent_views(agents@),
            m@ == team_best(all.take(i as int)),
        decreases agents.len() - i,
    {
        let a = &agents[i];
        let prev: u32 = match m.get(a.team.as_str()) {
            Some(v) => *v,
            None => 0,
        };
        let best: u32 = if a.score > prev { a.score } else { prev };
        m.insert(a.team.clone(), best);
        proof {
            assert(all.take(i + 1).drop_last() == all.take(i as int));
            assert(all.take(i + 1).last() == a@);
        }
        i = i + 1;
    }
    assert(all.take(agents.len() as int) == all);
    m
}

/// The first index of `agents` that holds the agent `id`, if any.
fn find_agent(agents: &Vec<AgentInfo>, id: u128) -> (k: Option<usize>)
    ensures
        match k {
            Some(k) => is_first_with_id(agent_views(agents@), id, k as int),
            None => forall|j: int| 0 <= j < agents@.len() ==> agents@[j].id != id,
        },
{
    let mut i: usize = 0;
    while i < agents.len()
        invariant
            0 <= i <= agents.len(),
            forall|j: int| 0 <= j < i ==> agents@[j].id != id,
        decreases agents.len() - i,
    {
        if agents[i].id == id {
            return Some(i);
        }
        i = i + 1;
    }
    None
}

/// `resources` without those of id `resource_id`, the others in order.
fn without_resource(resources: &Vec<ResourceInfo>, resource_id: u128) -> (out: Vec<ResourceInfo>)
    ensures
        out@ == resources@.filter(|r: ResourceInfo| r.resource_id != resource_id),
{
    let ghost keep = |r: ResourceInfo| r.resource_id != resource_id;
    let mut out: Vec<ResourceInfo> = Vec::new();
    let mut i: usize = 0;
    while i < resources.len()
        invariant
            0 <= i <= resources.len(),
            keep == (|r: ResourceInfo| r.resource_id != resource_id),
            out@ == resources@.take(i as int).filter(keep),
        decreases resources.len() - i,
    {
        let r = resources[i];
        let ghost next = resources@.take(i + 1);
        if r.resource_id != resource_id {
            out.push(r);
        }
        proof {
            assert(next.drop_last() == resources@.take(i as int));
            assert(next.last() == r);
            reveal(Seq::filter);
            assert(out@ == next.filter(keep));
        }
        i = i + 1;
    }
    assert(resources@.take(resources.len() as int) == resources@);
    out
}

} // verus!
