//! The hosts manifest: who takes part, in which order, and in which roles.

use indexmap::IndexMap;
use std::collections::VecDeque;
use vstd::prelude::*;
use vstd::slice::slice_subrange;

use crate::messaging::dist_types::PeerId;
use crate::setup::grammar::{find_char, line_entry, manifest_lines, parse_line, strip_cr};
use crate::setup::roster::{
    distinct_names, is_position, position_of, put, roster_entries, roster_get_index,
    roster_get_index_of, roster_insert, roster_len, roster_new, Entry,
};
use crate::state::paxos::{
    AcceptorState, Accepting, LearnerState, Learning, PaxosRole, PaxosStage, ProposerState,
    Proposing, RoleState,
};
use crate::text::{from_chars, to_chars};

verus! {

/// A role in one stage.
#[derive(Debug, Clone, Copy, PartialEq, Eq, Structural)]
pub enum Role {
    Proposer(u32),
    Acceptor(u32),
    Learner(u32),
}

impl Role {
    /// The stage in which the role is played.
    pub open spec fn stage(self) -> PaxosStage {
        match self {
            Role::Proposer(n) => n,
            Role::Acceptor(n) => n,
            Role::Learner(n) => n,
        }
    }
}

/// A manifest with a line that is not of the manifest's grammar.
#[derive(Debug, Clone, Copy, PartialEq, Eq, Structural)]
pub struct ManifestMalformed {
    /// The number of the first such line, counted from 1.
    pub line: usize,
}

/// The entries that `lines` list: a name listed again keeps its place and
/// takes the roles listed last. Nothing where a line is malformed.
pub open spec fn gather(lines: Seq<Seq<char>>) -> Option<Seq<Entry>>
    decreases lines.len(),
{
    if lines.len() == 0 {
        Some(Seq::empty())
    } else {
        match (gather(lines.drop_last()), line_entry(lines.last())) {
            (Some(entries), Some((name, roles))) => Some(put(entries, name, roles)),
            _ => None,
        }
    }
}

/// The number of the first malformed line among `lines`, counted from 1.
pub open spec fn malformed_line(lines: Seq<Seq<char>>) -> Option<nat>
    decreases lines.len(),
{
    if lines.len() == 0 {
        None
    } else {
        match malformed_line(lines.drop_last()) {
            Some(n) => Some(n),
            None => if line_entry(lines.last()) is None {
                Some(lines.len())
            } else {
                None
            },
        }
    }
}

/// The entries of the manifest whose text is `text`.
pub open spec fn manifest_entries(text: Seq<char>) -> Option<Seq<Entry>> {
    gather(manifest_lines(text))
}

/// Every entry lists a role.
pub open spec fn all_have_roles(entries: Seq<Entry>) -> bool {
    forall|i: int| 0 <= i < entries.len() ==> (#[trigger] entries[i]).1.len() > 0
}

/// The ids of the peers whose roles are `wanted`, in the manifest's order.
pub open spec fn peers_with(entries: Seq<Entry>, wanted: spec_fn(Seq<Role>) -> bool) -> Seq<
    PeerId,
>
    decreases entries.len(),
{
    if entries.len() == 0 {
        Seq::empty()
    } else if wanted(entries.last().1) {
        peers_with(entries.drop_last(), wanted).push(entries.len() as usize)
    } else {
        peers_with(entries.drop_last(), wanted)
    }
}

/// The ids and names of the peers not named `host`, in the manifest's order.
pub open spec fn others(entries: Seq<Entry>, host: Seq<char>) -> Seq<(PeerId, Seq<char>)>
    decreases entries.len(),
{
    if entries.len() == 0 {
        Seq::empty()
    } else if entries.last().0 != host {
        others(entries.drop_last(), host).push((entries.len() as usize, entries.last().0))
    } else {
        others(entries.drop_last(), host)
    }
}

/// Whether `roles` list the acceptor of `stage`.
pub open spec fn accepts_in(stage: PaxosStage) -> spec_fn(Seq<Role>) -> bool {
    |roles: Seq<Role>| roles.contains(Role::Acceptor(stage))
}

/// Whether `roles` list the acceptor or the learner of `stage`.
pub open spec fn hears_in(stage: PaxosStage) -> spec_fn(Seq<Role>) -> bool {
    |roles: Seq<Role>| roles.contains(Role::Acceptor(stage)) || roles.contains(Role::Learner(stage))
}

/// Whether `roles` list the proposer of `stage`.
pub open spec fn proposes_in(stage: PaxosStage) -> spec_fn(Seq<Role>) -> bool {
    |roles: Seq<Role>| roles.contains(Role::Proposer(stage))
}

/// The state in which a node starts to play `role`, the manifest being
/// `entries`: a proposer counts majorities among the acceptors of its
/// stage.
pub open spec fn fresh_role(entries: Seq<Entry>, role: Role) -> RoleState {
    match role {
        Role::Proposer(stage) => RoleState::Prop(
            ProposerState::fresh(peers_with(entries, accepts_in(stage)).len() as usize, stage),
        ),
        Role::Acceptor(_) => RoleState::Acc(AcceptorState::fresh()),
        Role::Learner(_) => RoleState::Learn(LearnerState::fresh()),
    }
}

/// Whether `stage` is among the stages of `roles`.
pub open spec fn has_stage(roles: Seq<Role>, stage: PaxosStage) -> bool {
    exists|i: int| 0 <= i < roles.len() && (#[trigger] roles[i]).stage() == stage
}

/// For each stage of `roles`, in the order of first mention, the state in
/// which the node starts to play the role listed first for that stage.
pub open spec fn fresh_roles(entries: Seq<Entry>, roles: Seq<Role>) -> Seq<(PaxosStage, RoleState)>
    decreases roles.len(),
{
    if roles.len() == 0 {
        Seq::empty()
    } else if has_stage(roles.drop_last(), roles.last().stage()) {
        fresh_roles(entries, roles.drop_last())
    } else {
        fresh_roles(entries, roles.drop_last()).push(
            (roles.last().stage(), fresh_role(entries, roles.last())),
        )
    }
}

/// Listing roles for a name keeps the names apart and every entry with a
/// role.
pub proof fn lemma_put_keeps_order(entries: Seq<Entry>, name: Seq<char>, roles: Seq<Role>)
    requires
        distinct_names(entries),
        all_have_roles(entries),
        roles.len() > 0,
    ensures
        distinct_names(put(entries, name, roles)),
        all_have_roles(put(entries, name, roles)),
        position_of(entries, name) is Some ==> put(entries, name, roles).len() == entries.len(),
        position_of(entries, name) is None ==> put(entries, name, roles).len() == entries.len() + 1,
{
    let next = put(entries, name, roles);
    match position_of(entries, name) {
        Some(at) => {
            assert(is_position(entries, name, at));
            assert forall|i: int, j: int| 0 <= i < j < next.len() implies (#[trigger] next[i]).0 != (
            #[trigger] next[j]).0 by {
                assert(next[i].0 == entries[i].0);
                assert(next[j].0 == entries[j].0);
            }
        },
        None => {
            assert forall|i: int, j: int| 0 <= i < j < next.len() implies (#[trigger] next[i]).0 != (
            #[trigger] next[j]).0 by {
                if j == entries.len() && entries[i].0 == name {
                    lemma_first_position(entries, name, i);
                }
            }
        },
    }
}

/// An entry named `name` gives `name` a position.
pub proof fn lemma_first_position(entries: Seq<Entry>, name: Seq<char>, at: int)
    requires
        0 <= at < entries.len(),
        entries[at].0 == name,
    ensures
        position_of(entries, name) is Some,
        position_of(entries, name)->0 <= at,
        distinct_names(entries) ==> position_of(entries, name) == Some(at),
    decreases at,
{
    if forall|j: int| 0 <= j < at ==> (#[trigger] entries[j]).0 != name {
        assert(is_position(entries, name, at));
        let found = choose|i: int| is_position(entries, name, i);
        assert(is_position(entries, name, found));
        assert(found == at);
    } else {
        let j = choose|j: int| 0 <= j < at && (#[trigger] entries[j]).0 == name;
        lemma_first_position(entries, name, j);
    }
}

/// The lines of a text list entries exactly where none of them is malformed.
pub proof fn lemma_gather_total(lines: Seq<Seq<char>>)
    ensures
        gather(lines) is Some <==> malformed_line(lines) is None,
        gather(lines) matches Some(entries) ==> distinct_names(entries) && all_have_roles(entries)
            && entries.len() <= lines.len(),
    decreases lines.len(),
{
    if lines.len() > 0 {
        lemma_gather_total(lines.drop_last());
        match (gather(lines.drop_last()), line_entry(lines.last())) {
            (Some(entries), Some((name, roles))) => {
                lemma_roles_listed(lines.last());
                lemma_put_keeps_order(entries, name, roles);
            },
            _ => {},
        }
    }
}

/// The first malformed line stays the first, whatever lines follow.
proof fn lemma_malformed_stays(lines: Seq<Seq<char>>, more: Seq<Seq<char>>)
    requires
        malformed_line(lines) is Some,
    ensures
        malformed_line(lines + more) == malformed_line(lines),
    decreases more.len(),
{
    if more.len() == 0 {
        assert(lines + more =~= lines);
    } else {
        lemma_malformed_stays(lines, more.drop_last());
        assert((lines + more).drop_last() =~= lines + more.drop_last());
    }
}

/// A well-formed line lists at least one role.
pub proof fn lemma_roles_listed(line: Seq<char>)
    ensures
        line_entry(line) matches Some(entry) ==> entry.1.len() > 0,
{
}

/// The ids and names in `list`, the names as sequences of characters.
pub open spec fn named(list: Seq<(PeerId, String)>) -> Seq<(PeerId, Seq<char>)> {
    list.map_values(|p: (PeerId, String)| (p.0, p.1@))
}

/// The stages and states in `list`, the states as contracts speak of them.
pub open spec fn role_views(list: Seq<(PaxosStage, PaxosRole)>) -> Seq<(PaxosStage, RoleState)> {
    list.map_values(|p: (PaxosStage, PaxosRole)| (p.0, p.1@))
}

/// The stages of `list` are the stages of `roles`.
proof fn lemma_fresh_stages(entries: Seq<Entry>, roles: Seq<Role>, stage: PaxosStage)
    ensures
        has_stage(roles, stage) <==> exists|j: int|
            0 <= j < fresh_roles(entries, roles).len() && (#[trigger] fresh_roles(
                entries,
                roles,
            )[j]).0 == stage,
    decreases roles.len(),
{
    let list = fresh_roles(entries, roles);
    if roles.len() > 0 {
        let front = roles.drop_last();
        let before = fresh_roles(entries, front);
        lemma_fresh_stages(entries, front, stage);
        lemma_fresh_stages(entries, front, roles.last().stage());
        if has_stage(roles, stage) {
            let i = choose|i: int| 0 <= i < roles.len() && (#[trigger] roles[i]).stage() == stage;
            if i < roles.len() - 1 {
                assert(front[i].stage() == stage);
                let j = choose|j: int| 0 <= j < before.len() && (#[trigger] before[j]).0 == stage;
                assert(list[j].0 == stage);
            } else if has_stage(front, stage) {
                let j = choose|j: int| 0 <= j < before.len() && (#[trigger] before[j]).0 == stage;
                assert(list[j].0 == stage);
            } else {
                assert(list[list.len() - 1].0 == stage);
            }
        }
        if exists|j: int| 0 <= j < list.len() && (#[trigger] list[j]).0 == stage {
            let j = choose|j: int| 0 <= j < list.len() && (#[trigger] list[j]).0 == stage;
            if j < before.len() {
                assert(before[j].0 == stage);
                let i = choose|i: int|
                    0 <= i < front.len() && (#[trigger] front[i]).stage() == stage;
                assert(roles[i].stage() == stage);
            } else {
                assert(roles[roles.len() - 1].stage() == stage);
            }
        }
    }
}

/// Two ways to say which roles are wanted pick the same peers if they
/// agree on every list of roles.
proof fn lemma_same_wanted(
    entries: Seq<Entry>,
    one: spec_fn(Seq<Role>) -> bool,
    other: spec_fn(Seq<Role>) -> bool,
)
    requires
        forall|roles: Seq<Role>| #[trigger] one(roles) == other(roles),
    ensures
        peers_with(entries, one) == peers_with(entries, other),
    decreases entries.len(),
{
    if entries.len() > 0 {
        lemma_same_wanted(entries.drop_last(), one, other);
    }
}

/// The manifest as one node sees it: every peer's hostname and roles, and
/// the node's own hostname.
#[derive(Debug)]
pub struct PeerList {
    peer_names: IndexMap<String, VecDeque<Role>>,
    hostname: String,
}

/// Reads the entries of a manifest into a map, line by line.
fn make_roles(text: &[char]) -> (result: Result<
    IndexMap<String, VecDeque<Role>>,
    ManifestMalformed,
>)
    ensures
        match result {
            Ok(map) => manifest_entries(text@) == Some(roster_entries(map)),
            Err(e) => malformed_line(manifest_lines(text@)) == Some(e.line as nat),
        },
{
    let mut map = roster_new();
    let mut pos: usize = 0;
    let mut count: usize = 0;
    let ghost mut done: Seq<Seq<char>> = Seq::empty();
    proof {
        assert(text@.skip(0) =~= text@);
        assert(done + manifest_lines(text@) =~= manifest_lines(text@));
    }
    while pos < text.len()
        invariant
            pos <= text@.len(),
            count <= pos,
            count == done.len(),
            manifest_lines(text@) == done + manifest_lines(text@.skip(pos as int)),
            gather(done) == Some(roster_entries(map)),
            malformed_line(done) is None,
        decreases text@.len() - pos,
    {
        let rest = slice_subrange(text, pos, text.len());
        assert(rest@ =~= text@.skip(pos as int));
        let end: usize = find_char(rest, '\n');
        let ended: bool = end < rest.len();
        let raw = slice_subrange(rest, 0, end);
        let line = if ended && end > 0 && raw[end - 1] == '\r' {
            slice_subrange(raw, 0, end - 1)
        } else {
            raw
        };
        proof {
            assert(raw@ =~= rest@.take(end as int));
            if ended {
                assert(line@ =~= strip_cr(rest@.take(end as int)));
                assert(rest@.skip(end + 1) =~= text@.skip(pos + end + 1));
                assert(done + (seq![line@] + manifest_lines(rest@.skip(end + 1))) =~= done.push(
                    line@,
                ) + manifest_lines(rest@.skip(end + 1)));
            } else {
                assert(line@ =~= rest@);
                assert(done + seq![line@] =~= done.push(line@) + manifest_lines(
                    text@.skip(text@.len() as int),
                ));
            }
            assert(done.push(line@).drop_last() =~= done);
        }
        match parse_line(line) {
            None => {
                proof {
                    lemma_malformed_stays(done.push(line@), manifest_lines(text@).skip(count + 1));
                    assert(manifest_lines(text@) =~= done.push(line@) + manifest_lines(
                        text@,
                    ).skip(count + 1));
                }
                return Err(ManifestMalformed { line: count + 1 });
            },
            Some((name, roles)) => {
                roster_insert(&mut map, from_chars(name.as_slice()), roles);
            },
        }
        proof {
            done = done.push(line@);
        }
        count = count + 1;
        pos = if ended {
            pos + end + 1
        } else {
            text.len()
        };
    }
    proof {
        assert(manifest_lines(text@.skip(pos as int)) =~= Seq::<Seq<char>>::empty());
        assert(done + Seq::<Seq<char>>::empty() =~= done);
    }
    Ok(map)
}

fn lists_role(roles: &VecDeque<Role>, role: Role) -> (yes: bool)
    ensures
        yes == roles@.contains(role),
{
    let mut i: usize = 0;
    while i < roles.len()
        invariant
            i <= roles@.len(),
            forall|j: int| 0 <= j < i ==> roles@[j] != role,
        decreases roles@.len() - i,
    {
        if roles[i] == role {
            return true;
        }
        i = i + 1;
    }
    false
}

impl PeerList {
    /// The entries of the manifest, in its order.
    pub closed spec fn entries(&self) -> Seq<Entry> {
        roster_entries(self.peer_names)
    }

    /// The node's own hostname.
    pub closed spec fn host(&self) -> Seq<char> {
        self.hostname@
    }

    /// No hostname is listed twice, and every hostname has a role.
    pub open spec fn wf(&self) -> bool {
        distinct_names(self.entries()) && all_have_roles(self.entries())
    }

    #[verifier::type_invariant]
    closed spec fn well_formed(&self) -> bool {
        self.wf()
    }

    /// The id of the peer named `name`: its place in the manifest, counted
    /// from 1.
    pub open spec fn id_of(&self, name: Seq<char>) -> Option<PeerId> {
        match position_of(self.entries(), name) {
            Some(i) => Some((i + 1) as usize),
            None => None,
        }
    }

    /// The ids of the acceptors of `stage`.
    pub open spec fn acceptors_of(&self, stage: PaxosStage) -> Seq<PeerId> {
        peers_with(self.entries(), accepts_in(stage))
    }

    /// The ids of the acceptors and learners of `stage`.
    pub open spec fn listeners_of(&self, stage: PaxosStage) -> Seq<PeerId> {
        peers_with(self.entries(), hears_in(stage))
    }

    /// The roles listed for this node.
    pub open spec fn own_roles(&self) -> Seq<Role>
        recommends
            self.id_of(self.host()) is Some,
    {
        self.entries()[position_of(self.entries(), self.host())->0].1
    }

    /// Reads the manifest `manifest` for the node whose hostname is
    /// `hostname`.
    pub fn load(hostname: String, manifest: &str) -> (result: Result<PeerList, ManifestMalformed>)
        ensures
            match result {
                Ok(list) => {
                    &&& manifest_entries(manifest@) == Some(list.entries())
                    &&& malformed_line(manifest_lines(manifest@)) is None
                    &&& list.host() == hostname@
                    &&& list.wf()
                },
                Err(e) => {
                    &&& malformed_line(manifest_lines(manifest@)) == Some(e.line as nat)
                    &&& manifest_entries(manifest@) is None
                },
            },
    {
        let chars = to_chars(manifest);
        proof {
            lemma_gather_total(manifest_lines(manifest@));
        }
        match make_roles(chars.as_slice()) {
            Ok(peer_names) => Ok(PeerList { peer_names, hostname }),
            Err(e) => Err(e),
        }
    }

    /// The hostname of this node.
    pub fn hostname(&self) -> (name: &str)
        ensures
            name@ == self.host(),
    {
        self.hostname.as_str()
    }

    /// The number of entries of the manifest.
    pub fn len(&self) -> (len: usize)
        ensures
            len == self.entries().len(),
    {
        roster_len(&self.peer_names)
    }

    /// The id of the peer named `name`, if the manifest lists it.
    pub fn peer_id(&self, name: &str) -> (id: Option<PeerId>)
        ensures
            id == self.id_of(name@),
            id matches Some(n) ==> 1 <= n <= self.entries().len() && position_of(
                self.entries(),
                name@,
            ) == Some(n - 1),
            self.wf(),
    {
        proof {
            use_type_invariant(self);
        }
        let len: usize = roster_len(&self.peer_names);
        match roster_get_index_of(&self.peer_names, name) {
            Some(i) => {
                proof {
                    lemma_first_position(self.entries(), name@, i as int);
                    assert(is_position(
                        self.entries(),
                        name@,
                        position_of(self.entries(), name@)->0,
                    ));
                }
                Some(i + 1)
            },
            None => {
                assert(forall|i: int| !is_position(self.entries(), name@, i));
                None
            },
        }
    }

    /// The id of this node.
    pub fn id(&self) -> (id: PeerId)
        requires
            self.id_of(self.host()) is Some,
        ensures
            Some(id) == self.id_of(self.host()),
            1 <= id <= self.entries().len(),
            position_of(self.entries(), self.host()) == Some(id - 1),
    {
        match self.peer_id(self.hostname.as_str()) {
            Some(id) => id,
            None => 0,
        }
    }

    fn ids_with_role(&self, first: Role, second: Role) -> (ids: Vec<PeerId>)
        ensures
            ids@ == peers_with(
                self.entries(),
                |roles: Seq<Role>| roles.contains(first) || roles.contains(second),
            ),
    {
        let ghost wanted = |roles: Seq<Role>| roles.contains(first) || roles.contains(second);
        let mut ids: Vec<PeerId> = Vec::new();
        let n: usize = roster_len(&self.peer_names);
        let mut i: usize = 0;
        while i < n
            invariant
                i <= n == self.entries().len(),
                ids@ == peers_with(self.entries().take(i as int), wanted),
                wanted == |roles: Seq<Role>| roles.contains(first) || roles.contains(second),
            decreases n - i,
        {
            assert(self.entries().take(i + 1).drop_last() =~= self.entries().take(i as int));
            if let Some((_name, roles)) = roster_get_index(&self.peer_names, i) {
                if lists_role(roles, first) || lists_role(roles, second) {
                    ids.push(i + 1);
                }
            }
            i = i + 1;
        }
        assert(self.entries().take(n as int) =~= self.entries());
        ids
    }

    /// The ids of the acceptors of stage `num`, this node among them if it
    /// is one, in the manifest's order.
    pub fn acceptors(&self, num: PaxosStage) -> (ids: Vec<PeerId>)
        ensures
            ids@ == self.acceptors_of(num),
    {
        let ids = self.ids_with_role(Role::Acceptor(num), Role::Acceptor(num));
        proof {
            lemma_same_wanted(
                self.entries(),
                |roles: Seq<Role>|
                    roles.contains(Role::Acceptor(num)) || roles.contains(Role::Acceptor(num)),
                accepts_in(num),
            );
        }
        ids
    }

    /// The ids of the acceptors and the learners of stage `num`, in the
    /// manifest's order.
    pub fn acceptors_and_learners(&self, num: PaxosStage) -> (ids: Vec<PeerId>)
        ensures
            ids@ == self.listeners_of(num),
    {
        let ids = self.ids_with_role(Role::Acceptor(num), Role::Learner(num));
        proof {
            lemma_same_wanted(
                self.entries(),
                |roles: Seq<Role>|
                    roles.contains(Role::Acceptor(num)) || roles.contains(Role::Learner(num)),
                hears_in(num),
            );
        }
        ids
    }

    /// The id of the proposer of stage `num`; nothing where the manifest
    /// lists none, or more than one.
    pub fn proposer(&self, num: PaxosStage) -> (id: Option<PeerId>)
        ensures
            id == if peers_with(self.entries(), proposes_in(num)).len() == 1 {
                Some(peers_with(self.entries(), proposes_in(num))[0])
            } else {
                None
            },
    {
        let ids = self.ids_with_role(Role::Proposer(num), Role::Proposer(num));
        proof {
            lemma_same_wanted(
                self.entries(),
                |roles: Seq<Role>|
                    roles.contains(Role::Proposer(num)) || roles.contains(Role::Proposer(num)),
                proposes_in(num),
            );
        }
        if ids.len() == 1 {
            Some(ids[0])
        } else {
            None
        }
    }

    /// The number of peers this node is linked to: all but itself.
    pub fn peers_count(&self) -> (count: usize)
        requires
            self.entries().len() > 0,
        ensures
            count == self.entries().len() - 1,
    {
        roster_len(&self.peer_names) - 1
    }

    /// The ids and names of the peers that this node links to: all but
    /// itself, in the manifest's order.
    pub fn ids_and_names(&self) -> (peers: Vec<(PeerId, String)>)
        ensures
            named(peers@) == others(self.entries(), self.host()),
    {
        let mut peers: Vec<(PeerId, String)> = Vec::new();
        let n: usize = roster_len(&self.peer_names);
        let mut i: usize = 0;
        while i < n
            invariant
                i <= n == self.entries().len(),
                named(peers@) == others(self.entries().take(i as int), self.host()),
            decreases n - i,
        {
            assert(self.entries().take(i + 1).drop_last() =~= self.entries().take(i as int));
            if let Some((name, _roles)) = roster_get_index(&self.peer_names, i) {
                if *name != self.hostname {
                    let ghost before = peers@;
                    peers.push((i + 1, name.clone()));
                    assert(named(peers@) =~= named(before).push(((i + 1) as usize, name@)));
                }
            }
            i = i + 1;
        }
        assert(self.entries().take(n as int) =~= self.entries());
        peers
    }

    fn make_role(&self, role: Role) -> (state: PaxosRole)
        ensures
            state@ == fresh_role(self.entries(), role),
    {
        match role {
            Role::Proposer(stage) => PaxosRole::Prop(
                Proposing::new(self.acceptors(stage).len(), stage),
            ),
            Role::Acceptor(_) => PaxosRole::Acc(Accepting::default()),
            Role::Learner(_) => PaxosRole::Learn(Learning::default()),
        }
    }

    /// The state in which this node starts to play the role listed first
    /// for it.
    pub fn paxos_role(&self) -> (role: PaxosRole)
        requires
            self.id_of(self.host()) is Some,
        ensures
            role@ == fresh_role(self.entries(), self.own_roles()[0]),
    {
        proof {
            use_type_invariant(self);
        }
        let id: PeerId = self.id();
        match roster_get_index(&self.peer_names, id - 1) {
            Some((_name, roles)) => self.make_role(roles[0]),
            None => PaxosRole::Learn(Learning::default()),
        }
    }

    /// For each stage in which this node has a role, the state in which it
    /// starts to play it. Where the manifest lists several roles of one
    /// stage for the node, the first counts.
    pub fn initial_roles(&self) -> (states: Vec<(PaxosStage, PaxosRole)>)
        requires
            self.id_of(self.host()) is Some,
        ensures
            role_views(states@) == fresh_roles(self.entries(), self.own_roles()),
    {
        let mut states: Vec<(PaxosStage, PaxosRole)> = Vec::new();
        let id: PeerId = self.id();
        if let Some((_name, roles)) = roster_get_index(&self.peer_names, id - 1) {
            let mut i: usize = 0;
            while i < roles.len()
                invariant
                    i <= roles@.len(),
                    roles@ == self.own_roles(),
                    role_views(states@) == fresh_roles(self.entries(), roles@.take(i as int)),
                decreases roles@.len() - i,
            {
                let role: Role = roles[i];
                let stage: PaxosStage = match role {
                    Role::Proposer(n) => n,
                    Role::Acceptor(n) => n,
                    Role::Learner(n) => n,
                };
                let ghost front = roles@.take(i as int);
                proof {
                    assert(roles@.take(i + 1).drop_last() =~= front);
                    lemma_fresh_stages(self.entries(), front, stage);
                }
                let mut known: bool = false;
                let mut j: usize = 0;
                while j < states.len()
                    invariant
                        j <= states@.len(),
                        known <==> exists|k: int|
                            0 <= k < j && (#[trigger] role_views(states@)[k]).0 == stage,
                    decreases states@.len() - j,
                {
                    if states[j].0 == stage {
                        known = true;
                        assert(role_views(states@)[j as int].0 == stage);
                    }
                    j = j + 1;
                }
                if !known {
                    let state = self.make_role(role);
                    let ghost before = states@;
                    states.push((stage, state));
                    assert(role_views(states@) =~= role_views(before).push((stage, state@)));
                }
                i = i + 1;
            }
            assert(roles@.take(i as int) =~= roles@);
        }
        states
    }
}

/// Two nodes that read the same manifest give every hostname the same
/// id, whatever their own hostnames are.
pub proof fn lemma_peer_ids_agree(one: PeerList, other: PeerList, manifest: Seq<char>, name: Seq<char>)
    requires
        manifest_entries(manifest) == Some(one.entries()),
        manifest_entries(manifest) == Some(other.entries()),
    ensures
        one.id_of(name) == other.id_of(name),
        forall|stage: PaxosStage| one.acceptors_of(stage) == other.acceptors_of(stage),
        forall|stage: PaxosStage| one.listeners_of(stage) == other.listeners_of(stage),
{
}

/// Ids are dense: in a manifest that lists no name twice, the peer in the
/// `n`th place has the id `n`, and no other peer has it.
pub proof fn lemma_ids_dense(list: PeerList, id: PeerId)
    requires
        list.wf(),
        list.entries().len() <= usize::MAX,
        1 <= id <= list.entries().len(),
    ensures
        list.id_of(list.entries()[id - 1].0) == Some(id),
        forall|name: Seq<char>| list.id_of(name) == Some(id) ==> name == list.entries()[id - 1].0,
{
    lemma_first_position(list.entries(), list.entries()[id - 1].0, id - 1);
    assert forall|name: Seq<char>| list.id_of(name) == Some(id) implies name == list.entries()[id
        - 1].0 by {
        let at = position_of(list.entries(), name)->0;
        assert(is_position(list.entries(), name, at));
    }
}

/// The peers picked by their roles are those whose roles are wanted, each
/// once and in the manifest's order.
pub proof fn lemma_peers_with(entries: Seq<Entry>, wanted: spec_fn(Seq<Role>) -> bool)
    requires
        entries.len() <= usize::MAX,
    ensures
        forall|id: PeerId| #[trigger]
            peers_with(entries, wanted).contains(id) <==> 1 <= id <= entries.len() && wanted(
                entries[id - 1].1,
            ),
        forall|i: int, j: int|
            0 <= i < j < peers_with(entries, wanted).len() ==> peers_with(entries, wanted)[i]
                < peers_with(entries, wanted)[j],
        peers_with(entries, wanted).len() <= entries.len(),
    decreases entries.len(),
{
    let picked = peers_with(entries, wanted);
    if entries.len() > 0 {
        let front = entries.drop_last();
        let before = peers_with(front, wanted);
        lemma_peers_with(front, wanted);
        assert forall|id: PeerId| #[trigger]
            picked.contains(id) <==> 1 <= id <= entries.len() && wanted(
                entries[id - 1].1,
            ) by {
            if picked.contains(id) {
                let i = choose|i: int| 0 <= i < picked.len() && picked[i] == id;
                if i < before.len() {
                    assert(before[i] == id);
                    assert(before.contains(id));
                    assert(front[id - 1] == entries[id - 1]);
                }
            }
            if 1 <= id <= entries.len() && wanted(entries[id - 1].1) {
                if id == entries.len() {
                    assert(picked[picked.len() - 1] == id);
                } else {
                    assert(front[id - 1] == entries[id - 1]);
                    assert(before.contains(id));
                    let i = choose|i: int| 0 <= i < before.len() && before[i] == id;
                    assert(picked[i] == id);
                }
            }
        }
        assert forall|i: int, j: int| 0 <= i < j < picked.len() implies picked[i] < picked[j] by {
            if j == before.len() {
                assert(before.contains(before[i]));
            }
        }
    }
}

} // verus!
