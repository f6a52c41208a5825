//! The per-community registry of external identifiers.
//!
//! Each community owns an insertion-ordered list of registered identifiers.
//! Registration is validate-then-insert: a duplicate identifier is rejected,
//! an identifier the external ranking service does not know is rejected, and
//! only a fresh, validated identifier is appended.  Whether the service knows
//! the identifier is decided by the caller (the lookup is a network call) and
//! handed in as a plain boolean.
//!
//! A deployment that keeps its registrations in an opaque relational store
//! instead drives that store with [`register_decision`], which agrees with
//! [`Registry::register`] on every state that matches its duplicate check.

use vstd::prelude::*;

verus! {

/// Result of a registration attempt, as the registry reports it.
#[derive(Clone, Copy, Debug, PartialEq, Eq, Structural)]
pub enum RegisterOutcome {
    /// The identifier was validated and appended to the community's registry.
    Registered,
    /// The identifier was already present for this community.
    AlreadyRegistered,
    /// The external ranking service did not recognise the identifier.
    UnknownExternalUser,
}

/// One community's slot: its identifier and its registered members in
/// insertion order.
struct Community {
    community_id: u64,
    members: Vec<String>,
}

/// The registry: one insertion-ordered member list per provisioned community.
pub struct Registry {
    communities: Vec<Community>,
}

/// The character sequences of a sequence of identifier strings.
pub open spec fn id_views(ids: Seq<String>) -> Seq<Seq<char>> {
    ids.map_values(|s: String| s@)
}

/// Each community identifier occurs at most once.
spec fn unique_ids(cs: Seq<Community>) -> bool {
    forall|i: int, j: int|
        0 <= i < j < cs.len() ==> cs[i].community_id != cs[j].community_id
}

/// Whether some slot carries this community identifier.
spec fn present_in(cs: Seq<Community>, community_id: u64) -> bool {
    exists|i: int| 0 <= i < cs.len() && cs[i].community_id == community_id
}

/// The members of this community, or the empty sequence if it has no slot.
/// The last slot with the identifier decides; with unique identifiers there
/// is at most one.
spec fn members_in(cs: Seq<Community>, community_id: u64) -> Seq<Seq<char>>
    decreases cs.len(),
{
    if cs.len() == 0 {
        Seq::empty()
    } else if cs.last().community_id == community_id {
        id_views(cs.last().members@)
    } else {
        members_in(cs.drop_last(), community_id)
    }
}

/// The outcome `register` owes for this registry state: a duplicate is
/// rejected first, then an unvalidated identifier, and only then is the
/// registration accepted.
pub open spec fn spec_register_outcome(
    members: Seq<Seq<char>>,
    id: Seq<char>,
    id_known: bool,
) -> RegisterOutcome {
    if members.contains(id) {
        RegisterOutcome::AlreadyRegistered
    } else if !id_known {
        RegisterOutcome::UnknownExternalUser
    } else {
        RegisterOutcome::Registered
    }
}

/// The member list after a registration attempt: unchanged on rejection,
/// extended at the end on success.
pub open spec fn spec_register_members(
    members: Seq<Seq<char>>,
    id: Seq<char>,
    id_known: bool,
) -> Seq<Seq<char>> {
    if spec_register_outcome(members, id, id_known) == RegisterOutcome::Registered {
        members.push(id)
    } else {
        members
    }
}

proof fn lemma_members_at(cs: Seq<Community>, i: int, community_id: u64)
    requires
        unique_ids(cs),
        0 <= i < cs.len(),
        cs[i].community_id == community_id,
    ensures
        members_in(cs, community_id) == id_views(cs[i].members@),
    decreases cs.len(),
{
    if i == cs.len() - 1 {
    } else {
        assert(cs.drop_last()[i] == cs[i]);
        lemma_members_at(cs.drop_last(), i, community_id);
    }
}

proof fn lemma_members_absent(cs: Seq<Community>, community_id: u64)
    requires
        forall|i: int| 0 <= i < cs.len() ==> cs[i].community_id != community_id,
    ensures
        members_in(cs, community_id) == Seq::<Seq<char>>::empty(),
    decreases cs.len(),
{
    if cs.len() > 0 {
        lemma_members_absent(cs.drop_last(), community_id);
    }
}

impl Registry {
    /// Community identifiers are unique, so each community has one member
    /// list.
    pub closed spec fn wf(self) -> bool {
        unique_ids(self.communities@)
    }

    /// Whether storage for this community has been provisioned.
    pub closed spec fn has_community(self, community_id: u64) -> bool {
        present_in(self.communities@, community_id)
    }

    /// The registered identifiers of this community, in insertion order;
    /// empty for a community never provisioned.
    pub closed spec fn members(self, community_id: u64) -> Seq<Seq<char>> {
        members_in(self.communities@, community_id)
    }

    /// A fresh registry: no community, no member.
    pub fn new() -> (r: Registry)
        ensures
            r.wf(),
            forall|c: u64| !(#[trigger] r.has_community(c)),
            forall|c: u64| #[trigger] r.members(c) == Seq::<Seq<char>>::empty(),
    {
        Registry { communities: Vec::new() }
    }

    fn find_community(&self, community_id: u64) -> (r: Option<usize>)
        ensures
            match r {
                Some(i) => i < self.communities@.len()
                    && self.communities@[i as int].community_id == community_id,
                None => !present_in(self.communities@, community_id),
            },
    {
        let mut i: usize = 0;
        while i < self.communities.len()
            invariant
                i <= self.communities@.len(),
                forall|k: int| 0 <= k < i ==> self.communities@[k].community_id != community_id,
            decreases self.communities@.len() - i,
        {
            if self.communities[i].community_id == community_id {
                return Some(i);
            }
            i = i + 1;
        }
        None
    }

    /// Idempotently provisions a slot for the community.  Observable members
    /// are unchanged: a fresh slot starts empty, and an absent community
    /// already reads as empty.
    pub fn ensure_registry(&mut self, community_id: u64)
        requires
            old(self).wf(),
        ensures
            final(self).wf(),
            final(self).has_community(community_id),
            forall|c: u64| #[trigger] final(self).members(c) == old(self).members(c),
            forall|c: u64|
                c != community_id ==> (#[trigger] final(self).has_community(c)
                    <==> old(self).has_community(c)),
    {
        let found = self.find_community(community_id);
        if found.is_none() {
            let ghost pre = self.communities@;
            self.communities.push(Community { community_id, members: Vec::new() });
            proof {
                assert(self.communities@.drop_last() =~= pre);
                assert(self.communities@[pre.len() as int].community_id == community_id);
                lemma_members_absent(pre, community_id);
                assert(id_views(Seq::<String>::empty()) =~= Seq::<Seq<char>>::empty());
                assert forall|c: u64| #[trigger] members_in(self.communities@, c)
                    == members_in(pre, c) by {
                    if c == community_id {
                        assert(members_in(self.communities@, c)
                            == id_views(Seq::<String>::empty()));
                    }
                }
            }
        }
    }

    /// Registers `external_id` for the community, provisioning its slot
    /// first.  `id_known` reports whether the external ranking service
    /// recognised the identifier; the caller performs that lookup.  A
    /// duplicate yields `AlreadyRegistered`, an unrecognised identifier
    /// `UnknownExternalUser`; only on success is the identifier appended.
    pub fn register(&mut self, community_id: u64, external_id: String, id_known: bool) -> (r:
        RegisterOutcome)
        requires
            old(self).wf(),
        ensures
            final(self).wf(),
            r == spec_register_outcome(old(self).members(community_id), external_id@, id_known),
            final(self).members(community_id) == spec_register_members(
                old(self).members(community_id),
                external_id@,
                id_known,
            ),
            final(self).has_community(community_id),
            forall|c: u64|
                c != community_id ==> #[trigger] final(self).members(c) == old(self).members(c),
            forall|c: u64|
                c != community_id ==> (#[trigger] final(self).has_community(c)
                    <==> old(self).has_community(c)),
    {
        self.ensure_registry(community_id);
        let ghost mid_reg = *self;
        let ghost mid = self.communities@;
        proof {
            assert forall|c: u64| #[trigger] members_in(mid, c) == old(self).members(c) by {
                assert(mid_reg.members(c) == old(self).members(c));
            }
            assert forall|c: u64| c != community_id implies (present_in(mid, c)
                <==> old(self).has_community(c)) by {
                assert(mid_reg.has_community(c) <==> old(self).has_community(c));
            }
        }
        let found = self.find_community(community_id);
        let i = found.unwrap();
        proof {
            lemma_members_at(mid, i as int, community_id);
        }
        let already = contains_id(&self.communities[i].members, &external_id);
        if already {
            RegisterOutcome::AlreadyRegistered
        } else if !id_known {
            RegisterOutcome::UnknownExternalUser
        } else {
            self.communities[i].members.push(external_id);
            proof {
                let post = self.communities@;
                assert(post == mid.update(i as int, post[i as int]));
                assert(post[i as int].community_id == community_id);
                assert(post[i as int].members@ == mid[i as int].members@.push(external_id));
                lemma_members_at(post, i as int, community_id);
                assert(id_views(post[i as int].members@) =~= id_views(
                    mid[i as int].members@,
                ).push(external_id@));
                assert forall|c: u64| c != community_id implies #[trigger] members_in(post, c)
                    == members_in(mid, c) by {
                    lemma_members_other(mid, i as int, post[i as int], c);
                }
                assert forall|c: u64| c != community_id implies (present_in(post, c)
                    <==> present_in(mid, c)) by {
                    lemma_members_other(mid, i as int, post[i as int], c);
                }
            }
            RegisterOutcome::Registered
        }
    }

    /// All identifiers registered for the community, in insertion order;
    /// the empty vector (not an error) for a community with none.
    pub fn list(&self, community_id: u64) -> (r: Vec<String>)
        requires
            self.wf(),
        ensures
            id_views(r@) == self.members(community_id),
    {
        match self.find_community(community_id) {
            None => {
                proof {
                    lemma_members_absent(self.communities@, community_id);
                    assert(id_views(Seq::<String>::empty()) =~= Seq::<Seq<char>>::empty());
                }
                Vec::new()
            },
            Some(i) => {
                proof {
                    lemma_members_at(self.communities@, i as int, community_id);
                }
                let r = self.communities[i].members.clone();
                proof {
                    assert forall|k: int| 0 <= k < r@.len() implies r@[k]
                        == self.communities@[i as int].members@[k] by {
                        assert(cloned::<String>(self.communities@[i as int].members@[k], r@[k]));
                    }
                    assert(r@ =~= self.communities@[i as int].members@);
                }
                r
            },
        }
    }
}

/// Whether `target` already occurs among the registered identifiers,
/// compared by characters.
fn contains_id(ids: &Vec<String>, target: &String) -> (r: bool)
    ensures
        r == id_views(ids@).contains(target@),
{
    let mut k: usize = 0;
    while k < ids.len()
        invariant
            k <= ids@.len(),
            forall|j: int| 0 <= j < k ==> id_views(ids@)[j] != target@,
        decreases ids@.len() - k,
    {
        if ids[k] == *target {
            assert(id_views(ids@)[k as int] == target@);
            return true;
        }
        k = k + 1;
    }
    assert(forall|j: int| 0 <= j < ids@.len() ==> id_views(ids@)[j] != target@);
    false
}

/// The member list after registering each identifier of `ids` in turn, all
/// of them validated by the external service.
pub open spec fn spec_register_all(members: Seq<Seq<char>>, ids: Seq<Seq<char>>) -> Seq<Seq<char>>
    decreases ids.len(),
{
    if ids.len() == 0 {
        members
    } else {
        spec_register_all(spec_register_members(members, ids.first(), true), ids.drop_first())
    }
}

/// Law: registrations are listed in insertion order.  Registering a sequence
/// of fresh, validated identifiers appends exactly that sequence, in order,
/// to the member list — which `list` then returns as it stands.
pub proof fn lemma_insertion_order(members: Seq<Seq<char>>, ids: Seq<Seq<char>>)
    requires
        forall|k: int| 0 <= k < ids.len() ==> !members.contains(#[trigger] ids[k]),
        ids.no_duplicates(),
    ensures
        spec_register_all(members, ids) == members + ids,
    decreases ids.len(),
{
    if ids.len() == 0 {
        assert(members + ids =~= members);
    } else {
        let first = ids.first();
        let rest = ids.drop_first();
        assert(!members.contains(first));
        let m1 = members.push(first);
        assert(spec_register_members(members, first, true) == m1);
        assert forall|k: int| 0 <= k < rest.len() implies !m1.contains(#[trigger] rest[k]) by {
            assert(rest[k] == ids[k + 1]);
            if m1.contains(rest[k]) {
                let w = choose|w: int| 0 <= w < m1.len() && m1[w] == rest[k];
                if w < members.len() {
                    assert(members.contains(rest[k]));
                } else {
                    assert(ids[k + 1] == ids[0]);
                }
            }
        }
        assert(rest.no_duplicates());
        lemma_insertion_order(m1, rest);
        assert(members + ids =~= m1 + rest);
    }
}

/// Law: a second registration of the same identifier is rejected.  Once a
/// registration for `id` has succeeded, registering `id` again yields
/// `AlreadyRegistered` — whatever the service now says of it — and leaves
/// the member list, in particular its size, unchanged.
pub proof fn lemma_duplicate_rejected(members: Seq<Seq<char>>, id: Seq<char>, id_known: bool)
    requires
        spec_register_outcome(members, id, true) == RegisterOutcome::Registered,
    ensures
        ({
            let after_first = spec_register_members(members, id, true);
            &&& spec_register_outcome(after_first, id, id_known)
                == RegisterOutcome::AlreadyRegistered
            &&& spec_register_members(after_first, id, id_known) == after_first
            &&& after_first.len() == members.len() + 1
        }),
{
    let after_first = spec_register_members(members, id, true);
    assert(after_first[members.len() as int] == id);
}

/// Law: an identifier the external service cannot validate is rejected and
/// does not appear afterwards: for a fresh identifier the outcome is
/// `UnknownExternalUser` and the member list — which `list` returns — still
/// lacks it.
pub proof fn lemma_unknown_not_registered(members: Seq<Seq<char>>, id: Seq<char>)
    requires
        !members.contains(id),
    ensures
        spec_register_outcome(members, id, false) == RegisterOutcome::UnknownExternalUser,
        spec_register_members(members, id, false) == members,
        !spec_register_members(members, id, false).contains(id),
{
}

/// Law: of two registrations of the same fresh identifier, exactly one
/// succeeds.  The registry serializes registration attempts; in whichever
/// order two attempts for `id` land, the first returns `Registered` and the
/// second `AlreadyRegistered`.
pub proof fn lemma_concurrent_register_once(members: Seq<Seq<char>>, id: Seq<char>)
    requires
        !members.contains(id),
    ensures
        spec_register_outcome(members, id, true) == RegisterOutcome::Registered,
        spec_register_outcome(spec_register_members(members, id, true), id, true)
            == RegisterOutcome::AlreadyRegistered,
{
    let after_first = spec_register_members(members, id, true);
    assert(after_first[members.len() as int] == id);
}

/// The decision a registration attempt comes down to, for a caller whose
/// registry lives behind an opaque store: given whether the identifier is
/// already stored for the community and whether the external ranking
/// service recognised it, the outcome agrees with `register` on every
/// member list that matches the duplicate check.
pub fn register_decision(already_registered: bool, id_known: bool) -> (r: RegisterOutcome)
    ensures
        forall|members: Seq<Seq<char>>, id: Seq<char>|
            members.contains(id) == already_registered ==> #[trigger] spec_register_outcome(
                members,
                id,
                id_known,
            ) == r,
{
    if already_registered {
        RegisterOutcome::AlreadyRegistered
    } else if !id_known {
        RegisterOutcome::UnknownExternalUser
    } else {
        RegisterOutcome::Registered
    }
}

/// Whether this caller may register users.  An empty allow-list leaves the
/// command open to everyone; a non-empty one restricts it to the callers
/// listed.
pub fn is_authorized(allow_list: &Vec<u64>, caller: u64) -> (r: bool)
    ensures
        r == (allow_list@.len() == 0 || allow_list@.contains(caller)),
{
    if allow_list.len() == 0 {
        return true;
    }
    let mut k: usize = 0;
    while k < allow_list.len()
        invariant
            k <= allow_list@.len(),
            forall|j: int| 0 <= j < k ==> allow_list@[j] != caller,
        decreases allow_list@.len() - k,
    {
        if allow_list[k] == caller {
            return true;
        }
        k = k + 1;
    }
    false
}

/// Updating one community's slot, keeping its identifier, leaves every other
/// community's members and presence as they were.
proof fn lemma_members_other(cs: Seq<Community>, i: int, c: Community, other: u64)
    requires
        unique_ids(cs),
        0 <= i < cs.len(),
        cs[i].community_id == c.community_id,
        other != c.community_id,
    ensures
        members_in(cs.update(i, c), other) == members_in(cs, other),
        present_in(cs.update(i, c), other) <==> present_in(cs, other),
        unique_ids(cs.update(i, c)),
{
    let post = cs.update(i, c);
    if present_in(cs, other) {
        let j = choose|j: int| 0 <= j < cs.len() && cs[j].community_id == other;
        assert(post[j] == cs[j]);
        lemma_members_at(cs, j, other);
        lemma_members_at(post, j, other);
    } else {
        assert forall|k: int| 0 <= k < post.len() implies post[k].community_id != other by {
            if k != i {
                assert(post[k] == cs[k]);
            }
        }
        lemma_members_absent(cs, other);
        lemma_members_absent(post, other);
    }
}

} // verus!
