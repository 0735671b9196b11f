//! The authoritative state container and sole mutator of all entities.
//!
//! [`CommunityStore`] owns the four collections (users, spaces, posts,
//! proposals) and exposes the operation set: every operation is a single
//! atomic transition, either committing its whole mutation or rejecting
//! before any mutation. The caller's identity and, for posts, the logical
//! timestamp are explicit parameters supplied by the environment.
//!
//! The contracts speak over [`StoreView`], the store's mathematical value,
//! and over the transition functions defined on it.

use vstd::prelude::*;

use crate::assoc::{assoc_map, lemma_assoc_map_push, lemma_assoc_map_update, unique_keys};
use crate::entities::{
    member_set, distinct_identities, user_pairs, vote_pairs, CommunitySpace, Post, PostView,
    Proposal, ProposalView, SpaceView, StoreError, User, Vote, VoteOption,
};
use crate::identity::Identity;

verus! {

/// The mathematical value of the whole store.
#[verifier::ext_equal]
pub ghost struct StoreView {
    /// Trust level of each registered identity.
    pub users: Map<Seq<u8>, u8>,
    /// All community spaces, in creation order.
    pub spaces: Seq<SpaceView>,
    /// All posts, in creation order.
    pub posts: Seq<PostView>,
    /// All proposals, in creation order.
    pub proposals: Seq<ProposalView>,
}

impl StoreView {
    /// The freshly initialized store: no entities at all.
    pub open spec fn init() -> StoreView {
        StoreView {
            users: Map::empty(),
            spaces: Seq::empty(),
            posts: Seq::empty(),
            proposals: Seq::empty(),
        }
    }

    /// Space ids and proposal ids are unique within their collections.
    pub open spec fn wf(self) -> bool {
        &&& forall|i: int, j: int|
            0 <= i < j < self.spaces.len() ==> self.spaces[i].id != self.spaces[j].id
        &&& forall|i: int, j: int|
            0 <= i < j < self.proposals.len() ==> self.proposals[i].id != self.proposals[j].id
    }

    /// Whether some space carries this id.
    pub open spec fn has_space(self, id: Seq<char>) -> bool {
        exists|i: int| 0 <= i < self.spaces.len() && self.spaces[i].id == id
    }

    /// Whether this identity is in the member set of a space with this id.
    pub open spec fn is_member(self, id: Seq<char>, who: Seq<u8>) -> bool {
        exists|i: int|
            0 <= i < self.spaces.len() && self.spaces[i].id == id
                && self.spaces[i].members.contains(who)
    }

    /// Whether some proposal carries this id.
    pub open spec fn has_proposal(self, id: Seq<char>) -> bool {
        exists|i: int| 0 <= i < self.proposals.len() && self.proposals[i].id == id
    }

    /// Registering creates or overwrites the caller's user record.
    pub open spec fn register_user(self, who: Seq<u8>, trust_level: u8) -> StoreView {
        StoreView { users: self.users.insert(who, trust_level), ..self }
    }

    /// Creating a space appends it with an empty member set; a duplicate
    /// id leaves the store unchanged.
    pub open spec fn create_space(
        self,
        id: Seq<char>,
        name: Seq<char>,
        physical_location: Option<Seq<char>>,
    ) -> StoreView {
        if self.has_space(id) {
            self
        } else {
            StoreView {
                spaces: self.spaces.push(
                    SpaceView { id, name, members: Set::empty(), physical_location },
                ),
                ..self
            }
        }
    }

    /// Joining adds the identity to the member set of every space with
    /// this id (at most one, in a well-formed store).
    pub open spec fn join_space(self, id: Seq<char>, who: Seq<u8>) -> StoreView {
        StoreView {
            spaces: self.spaces.map_values(
                |s: SpaceView|
                    if s.id == id {
                        SpaceView { members: s.members.insert(who), ..s }
                    } else {
                        s
                    },
            ),
            ..self
        }
    }

    /// Posting appends one post carrying its originating space id.
    pub open spec fn add_post(
        self,
        space_id: Seq<char>,
        author: Seq<u8>,
        content: Seq<char>,
        timestamp: u64,
    ) -> StoreView {
        StoreView {
            posts: self.posts.push(PostView { space_id, author, content, timestamp }),
            ..self
        }
    }

    /// Creating a proposal appends it with an empty vote mapping; a
    /// duplicate id leaves the store unchanged.
    pub open spec fn create_proposal(
        self,
        id: Seq<char>,
        proposed_by: Seq<u8>,
        description: Seq<char>,
    ) -> StoreView {
        if self.has_proposal(id) {
            self
        } else {
            StoreView {
                proposals: self.proposals.push(
                    ProposalView { id, proposed_by, description, votes: Map::empty() },
                ),
                ..self
            }
        }
    }

    /// Voting inserts or overwrites the voter's entry in the vote mapping
    /// of every proposal with this id (at most one, in a well-formed
    /// store).
    pub open spec fn cast_vote(self, id: Seq<char>, who: Seq<u8>, choice: VoteOption) -> StoreView {
        StoreView {
            proposals: self.proposals.map_values(
                |p: ProposalView|
                    if p.id == id {
                        ProposalView { votes: p.votes.insert(who, choice), ..p }
                    } else {
                        p
                    },
            ),
            ..self
        }
    }

    /// The posts recorded for this space id, in creation order.
    pub open spec fn posts_for(self, space_id: Seq<char>) -> Seq<PostView> {
        self.posts.filter(|p: PostView| p.space_id == space_id)
    }

    /// The vote mapping of the proposal with this id, or the empty mapping
    /// if there is none.
    pub open spec fn votes_for(self, proposal_id: Seq<char>) -> Map<Seq<u8>, VoteOption> {
        if self.has_proposal(proposal_id) {
            let i = choose|i: int|
                0 <= i < self.proposals.len() && self.proposals[i].id == proposal_id;
            self.proposals[i].votes
        } else {
            Map::empty()
        }
    }
}

/// The authoritative in-process state container.
pub struct CommunityStore {
    users: Vec<User>,
    spaces: Vec<CommunitySpace>,
    posts: Vec<Post>,
    proposals: Vec<Proposal>,
}

impl View for CommunityStore {
    type V = StoreView;

    closed spec fn view(&self) -> StoreView {
        StoreView {
            users: assoc_map(user_pairs(self.users@)),
            spaces: self.spaces@.map_values(|s: CommunitySpace| s@),
            posts: self.posts@.map_values(|p: Post| p@),
            proposals: self.proposals@.map_values(|p: Proposal| p@),
        }
    }
}

/// Filtering after an append keeps the old result and appends the new
/// element exactly when it matches.
proof fn lemma_filter_push<A>(s: Seq<A>, pred: spec_fn(A) -> bool, x: A)
    ensures
        pred(x) ==> s.push(x).filter(pred) == s.filter(pred).push(x),
        !pred(x) ==> s.push(x).filter(pred) == s.filter(pred),
{
    reveal(Seq::filter);
    assert(s.push(x).drop_last() =~= s);
    assert(s.push(x).last() == x);
}

/// The first position holding this identity, if any.
fn find_identity(v: &Vec<Identity>, who: &Identity) -> (r: Option<usize>)
    ensures
        match r {
            Some(i) => i < v@.len() && v@[i as int]@ == who@,
            None => forall|j: int| 0 <= j < v@.len() ==> v@[j]@ != who@,
        },
{
    let mut i: usize = 0;
    while i < v.len()
        invariant
            i <= v@.len(),
            forall|j: int| 0 <= j < i ==> v@[j]@ != who@,
        decreases v@.len() - i,
    {
        if v[i] == *who {
            return Some(i);
        }
        i += 1;
    }
    None
}

/// The first position of a user record for this identity, if any.
fn find_user(users: &Vec<User>, who: &Identity) -> (r: Option<usize>)
    ensures
        match r {
            Some(i) => i < users@.len() && users@[i as int].identity@ == who@,
            None => forall|j: int| 0 <= j < users@.len() ==> users@[j].identity@ != who@,
        },
{
    let mut i: usize = 0;
    while i < users.len()
        invariant
            i <= users@.len(),
            forall|j: int| 0 <= j < i ==> users@[j].identity@ != who@,
        decreases users@.len() - i,
    {
        if users[i].identity == *who {
            return Some(i);
        }
        i += 1;
    }
    None
}

/// The first position of a ballot cast by this identity, if any.
fn find_vote(votes: &Vec<Vote>, who: &Identity) -> (r: Option<usize>)
    ensures
        match r {
            Some(i) => i < votes@.len() && votes@[i as int].voter@ == who@,
            None => forall|j: int| 0 <= j < votes@.len() ==> votes@[j].voter@ != who@,
        },
{
    let mut i: usize = 0;
    while i < votes.len()
        invariant
            i <= votes@.len(),
            forall|j: int| 0 <= j < i ==> votes@[j].voter@ != who@,
        decreases votes@.len() - i,
    {
        if votes[i].voter == *who {
            return Some(i);
        }
        i += 1;
    }
    None
}

impl Default for CommunityStore {
    fn default() -> (r: CommunityStore)
        ensures
            r.inv(),
            r@ == StoreView::init(),
    {
        CommunityStore::new()
    }
}

impl CommunityStore {
    /// Well-formedness: unique keys in every keyed collection, down to the
    /// member lists and vote lists. Established by [`CommunityStore::new`]
    /// and preserved by every operation.
    pub closed spec fn inv(self) -> bool {
        &&& self@.wf()
        &&& unique_keys(user_pairs(self.users@))
        &&& forall|k: int|
            0 <= k < self.spaces@.len() ==> distinct_identities(
                #[trigger] self.spaces@[k].members@,
            )
        &&& forall|k: int|
            0 <= k < self.proposals@.len() ==> unique_keys(
                vote_pairs(#[trigger] self.proposals@[k].votes@),
            )
    }

    /// A new store holding zero entities.
    pub fn new() -> (r: CommunityStore)
        ensures
            r.inv(),
            r@ == StoreView::init(),
    {
        let r = CommunityStore {
            users: Vec::new(),
            spaces: Vec::new(),
            posts: Vec::new(),
            proposals: Vec::new(),
        };
        proof {
            assert(user_pairs(r.users@) =~= Seq::<(Seq<u8>, u8)>::empty());
            assert(r@ =~= StoreView::init());
        }
        r
    }

    /// The first position of a space record with this id, if any.
    fn find_space(&self, space_id: &String) -> (r: Option<usize>)
        ensures
            match r {
                Some(i) => i < self.spaces@.len() && self.spaces@[i as int].id@ == space_id@,
                None => forall|j: int|
                    0 <= j < self.spaces@.len() ==> self.spaces@[j].id@ != space_id@,
            },
    {
        let mut i: usize = 0;
        while i < self.spaces.len()
            invariant
                i <= self.spaces@.len(),
                forall|j: int| 0 <= j < i ==> self.spaces@[j].id@ != space_id@,
            decreases self.spaces@.len() - i,
        {
            if self.spaces[i].id == *space_id {
                return Some(i);
            }
            i += 1;
        }
        None
    }

    /// The first position of a proposal record with this id, if any.
    fn find_proposal(&self, proposal_id: &String) -> (r: Option<usize>)
        ensures
            match r {
                Some(i) => i < self.proposals@.len()
                    && self.proposals@[i as int].id@ == proposal_id@,
                None => forall|j: int|
                    0 <= j < self.proposals@.len() ==> self.proposals@[j].id@ != proposal_id@,
            },
    {
        let mut i: usize = 0;
        while i < self.proposals.len()
            invariant
                i <= self.proposals@.len(),
                forall|j: int| 0 <= j < i ==> self.proposals@[j].id@ != proposal_id@,
            decreases self.proposals@.len() - i,
        {
            if self.proposals[i].id == *proposal_id {
                return Some(i);
            }
            i += 1;
        }
        None
    }

    /// Creates or overwrites the user record keyed by the caller's
    /// identity with the given trust level. Idempotent under identical
    /// input; silently overwrites under differing input.
    pub fn register_user(&mut self, caller: &Identity, trust_level: u8)
        requires
            old(self).inv(),
        ensures
            final(self).inv(),
            final(self)@ == old(self)@.register_user(caller@, trust_level),
    {
        let user = User { identity: caller.clone(), trust_level };
        match find_user(&self.users, caller) {
            Some(i) => {
                self.users[i] = user;
                proof {
                    let pairs = user_pairs(old(self).users@);
                    assert(user_pairs(self.users@) =~= pairs.update(
                        i as int,
                        (caller@, trust_level),
                    ));
                    assert(pairs[i as int].0 == caller@);
                    lemma_assoc_map_update(pairs, i as int, trust_level);
                    assert(self@ =~= old(self)@.register_user(caller@, trust_level));
                }
            },
            None => {
                self.users.push(user);
                proof {
                    let pairs = user_pairs(old(self).users@);
                    assert(user_pairs(self.users@) =~= pairs.push((caller@, trust_level)));
                    lemma_assoc_map_push(pairs, caller@, trust_level);
                    assert(self@ =~= old(self)@.register_user(caller@, trust_level));
                }
            },
        }
    }

    /// Creates a space with this id and an empty member set, or rejects a
    /// duplicate id without mutation.
    pub fn create_community_space(
        &mut self,
        id: String,
        name: String,
        physical_location: Option<String>,
    ) -> (r: Result<(), StoreError>)
        requires
            old(self).inv(),
        ensures
            final(self).inv(),
            final(self)@ == old(self)@.create_space(id@, name@, physical_location.deep_view()),
            r == (if old(self)@.has_space(id@) {
                Err::<(), StoreError>(StoreError::DuplicateKey)
            } else {
                Ok::<(), StoreError>(())
            }),
    {
        match self.find_space(&id) {
            Some(i) => {
                proof {
                    assert(self@.spaces[i as int].id == id@);
                    assert(self@.has_space(id@));
                }
                Err(StoreError::DuplicateKey)
            },
            None => {
                proof {
                    assert forall|j: int| 0 <= j < self@.spaces.len()
                        implies self@.spaces[j].id != id@ by {
                        assert(self@.spaces[j] == self.spaces@[j]@);
                    }
                    assert(!self@.has_space(id@));
                }
                let ghost prior = self@;
                let space = CommunitySpace {
                    id,
                    name,
                    members: Vec::new(),
                    physical_location,
                };
                self.spaces.push(space);
                proof {
                    assert(member_set(Seq::<Identity>::empty()) =~= Set::<Seq<u8>>::empty());
                    assert(self@.spaces =~= prior.spaces.push(space@));
                    assert(self@ =~= prior.create_space(
                        id@,
                        name@,
                        physical_location.deep_view(),
                    ));
                }
                Ok(())
            },
        }
    }

    /// Adds the caller to the member set of the space with this id
    /// (re-joining is a no-op), or reports `NotFound` without mutation.
    pub fn join_community_space(&mut self, caller: &Identity, space_id: &String) -> (r: Result<
        (),
        StoreError,
    >)
        requires
            old(self).inv(),
        ensures
            final(self).inv(),
            old(self)@.has_space(space_id@) ==> final(self)@ == old(self)@.join_space(
                space_id@,
                caller@,
            ) && r == Ok::<(), StoreError>(()),
            !old(self)@.has_space(space_id@) ==> final(self)@ == old(self)@ && r == Err::<
                (),
                StoreError,
            >(StoreError::NotFound),
    {
        match self.find_space(space_id) {
            None => {
                proof {
                    assert forall|j: int| 0 <= j < self@.spaces.len()
                        implies self@.spaces[j].id != space_id@ by {
                        assert(self@.spaces[j] == self.spaces@[j]@);
                    }
                }
                Err(StoreError::NotFound)
            },
            Some(i) => {
                proof {
                    assert(self@.spaces[i as int].id == space_id@);
                    assert(self@.has_space(space_id@));
                }
                let ghost prior = self@;
                let ghost old_space = self.spaces@[i as int];
                let mut space = self.spaces.remove(i);
                match find_identity(&space.members, caller) {
                    Some(_) => {
                        proof {
                            assert(member_set(space.members@).contains(caller@));
                        }
                    },
                    None => {
                        let ghost before = space.members@;
                        space.members.push(caller.clone());
                        proof {
                            assert forall|b: Seq<u8>| member_set(space.members@).contains(b)
                                <==> member_set(before).insert(caller@).contains(b) by {
                                if member_set(space.members@).contains(b) {
                                    let k = choose|k: int|
                                        0 <= k < space.members@.len() && space.members@[k]@ == b;
                                    if k < before.len() {
                                        assert(before[k]@ == b);
                                    }
                                }
                                if member_set(before).contains(b) {
                                    let k = choose|k: int|
                                        0 <= k < before.len() && before[k]@ == b;
                                    assert(space.members@[k]@ == b);
                                }
                                if b == caller@ {
                                    assert(space.members@[before.len() as int]@ == b);
                                }
                            }
                            assert(member_set(space.members@) =~= member_set(before).insert(
                                caller@,
                            ));
                            assert(distinct_identities(space.members@));
                        }
                    },
                }
                proof {
                    assert(space@ =~= (SpaceView {
                        members: old_space@.members.insert(caller@),
                        ..old_space@
                    }));
                }
                self.spaces.insert(i, space);
                proof {
                    assert(self.spaces@ =~= old(self).spaces@.update(i as int, space));
                    let f = |s: SpaceView|
                        if s.id == space_id@ {
                            SpaceView { members: s.members.insert(caller@), ..s }
                        } else {
                            s
                        };
                    assert forall|j: int| 0 <= j < self@.spaces.len()
                        implies self@.spaces[j] == f(prior.spaces[j]) by {
                        assert(prior.spaces[j] == old(self).spaces@[j]@);
                        assert(self@.spaces[j] == self.spaces@[j]@);
                        if j != i as int {
                            assert(prior.spaces[i as int].id != prior.spaces[j].id);
                        }
                    }
                    assert(self@.spaces =~= prior.spaces.map_values(f));
                    assert(self@ =~= prior.join_space(space_id@, caller@));
                }
                Ok(())
            },
        }
    }

    /// Appends a post carrying the caller's identity, the content, the
    /// given logical timestamp and the originating space id. Requires the
    /// space to exist (`NotFound` otherwise) and the caller to be one of
    /// its members (`Forbidden` otherwise); neither failure mutates state.
    pub fn post_message(
        &mut self,
        caller: &Identity,
        timestamp: u64,
        space_id: &String,
        content: String,
    ) -> (r: Result<(), StoreError>)
        requires
            old(self).inv(),
        ensures
            final(self).inv(),
            final(self)@ == (if old(self)@.has_space(space_id@) && old(self)@.is_member(
                space_id@,
                caller@,
            ) {
                old(self)@.add_post(space_id@, caller@, content@, timestamp)
            } else {
                old(self)@
            }),
            r == (if !old(self)@.has_space(space_id@) {
                Err::<(), StoreError>(StoreError::NotFound)
            } else if !old(self)@.is_member(space_id@, caller@) {
                Err::<(), StoreError>(StoreError::Forbidden)
            } else {
                Ok::<(), StoreError>(())
            }),
    {
        match self.find_space(space_id) {
            None => {
                proof {
                    assert forall|j: int| 0 <= j < self@.spaces.len()
                        implies self@.spaces[j].id != space_id@ by {
                        assert(self@.spaces[j] == self.spaces@[j]@);
                    }
                }
                Err(StoreError::NotFound)
            },
            Some(i) => {
                proof {
                    assert(self@.spaces[i as int].id == space_id@);
                    assert(self@.has_space(space_id@));
                }
                match find_identity(&self.spaces[i].members, caller) {
                    None => {
                        proof {
                            assert forall|k: int|
                                0 <= k < self@.spaces.len() && self@.spaces[k].id == space_id@
                                implies !self@.spaces[k].members.contains(caller@) by {
                                if k != i as int {
                                    assert(self@.spaces[i as int].id != self@.spaces[k].id);
                                }
                                assert(self@.spaces[k] == self.spaces@[k]@);
                            }
                            assert(!self@.is_member(space_id@, caller@));
                        }
                        Err(StoreError::Forbidden)
                    },
                    Some(_) => {
                        proof {
                            assert(self@.spaces[i as int] == self.spaces@[i as int]@);
                            assert(self@.spaces[i as int].members.contains(caller@));
                            assert(self@.is_member(space_id@, caller@));
                        }
                        let ghost prior = self@;
                        let post = Post {
                            space_id: space_id.clone(),
                            author: caller.clone(),
                            content,
                            timestamp,
                        };
                        self.posts.push(post);
                        proof {
                            assert(self@.posts =~= prior.posts.push(post@));
                            assert(self@ =~= prior.add_post(
                                space_id@,
                                caller@,
                                post.content@,
                                timestamp,
                            ));
                        }
                        Ok(())
                    },
                }
            },
        }
    }

    /// Creates a proposal with this id, proposed by the caller, with an
    /// empty vote mapping; a duplicate id is rejected without mutation.
    pub fn create_proposal(&mut self, caller: &Identity, id: String, description: String) -> (r:
        Result<(), StoreError>)
        requires
            old(self).inv(),
        ensures
            final(self).inv(),
            final(self)@ == old(self)@.create_proposal(id@, caller@, description@),
            r == (if old(self)@.has_proposal(id@) {
                Err::<(), StoreError>(StoreError::DuplicateKey)
            } else {
                Ok::<(), StoreError>(())
            }),
    {
        match self.find_proposal(&id) {
            Some(i) => {
                proof {
                    assert(self@.proposals[i as int].id == id@);
                    assert(self@.has_proposal(id@));
                }
                Err(StoreError::DuplicateKey)
            },
            None => {
                proof {
                    assert forall|j: int| 0 <= j < self@.proposals.len()
                        implies self@.proposals[j].id != id@ by {
                        assert(self@.proposals[j] == self.proposals@[j]@);
                    }
                    assert(!self@.has_proposal(id@));
                }
                let ghost prior = self@;
                let proposal = Proposal {
                    id,
                    proposed_by: caller.clone(),
                    description,
                    votes: Vec::new(),
                };
                self.proposals.push(proposal);
                proof {
                    assert(vote_pairs(Seq::<Vote>::empty())
                        =~= Seq::<(Seq<u8>, VoteOption)>::empty());
                    assert(self@.proposals =~= prior.proposals.push(
                        self.proposals@.last()@,
                    ));
                    assert(self@ =~= prior.create_proposal(
                        self.proposals@.last().id@,
                        caller@,
                        self.proposals@.last().description@,
                    ));
                }
                Ok(())
            },
        }
    }

    /// Sets (inserts or overwrites) the caller's entry in the vote mapping
    /// of the proposal with this id, or reports `NotFound` without
    /// mutation.
    pub fn vote_on_proposal(
        &mut self,
        caller: &Identity,
        proposal_id: &String,
        vote: VoteOption,
    ) -> (r: Result<(), StoreError>)
        requires
            old(self).inv(),
        ensures
            final(self).inv(),
            old(self)@.has_proposal(proposal_id@) ==> final(self)@ == old(self)@.cast_vote(
                proposal_id@,
                caller@,
                vote,
            ) && r == Ok::<(), StoreError>(()),
            !old(self)@.has_proposal(proposal_id@) ==> final(self)@ == old(self)@ && r == Err::<
                (),
                StoreError,
            >(StoreError::NotFound),
    {
        match self.find_proposal(proposal_id) {
            None => {
                proof {
                    assert forall|j: int| 0 <= j < self@.proposals.len()
                        implies self@.proposals[j].id != proposal_id@ by {
                        assert(self@.proposals[j] == self.proposals@[j]@);
                    }
                }
                Err(StoreError::NotFound)
            },
            Some(i) => {
                proof {
                    assert(self@.proposals[i as int].id == proposal_id@);
                    assert(self@.has_proposal(proposal_id@));
                }
                let ghost prior = self@;
                let ghost old_proposal = self.proposals@[i as int];
                let mut proposal = self.proposals.remove(i);
                let ballot = Vote { voter: caller.clone(), choice: vote };
                match find_vote(&proposal.votes, caller) {
                    Some(j) => {
                        let ghost before = proposal.votes@;
                        proposal.votes[j] = ballot;
                        proof {
                            let pairs = vote_pairs(before);
                            assert(vote_pairs(proposal.votes@) =~= pairs.update(
                                j as int,
                                (caller@, vote),
                            ));
                            assert(pairs[j as int].0 == caller@);
                            lemma_assoc_map_update(pairs, j as int, vote);
                        }
                    },
                    None => {
                        let ghost before = proposal.votes@;
                        proposal.votes.push(ballot);
                        proof {
                            let pairs = vote_pairs(before);
                            assert(vote_pairs(proposal.votes@) =~= pairs.push((caller@, vote)));
                            lemma_assoc_map_push(pairs, caller@, vote);
                        }
                    },
                }
                proof {
                    assert(proposal@ =~= (ProposalView {
                        votes: old_proposal@.votes.insert(caller@, vote),
                        ..old_proposal@
                    }));
                }
                self.proposals.insert(i, proposal);
                proof {
                    assert(self.proposals@ =~= old(self).proposals@.update(i as int, proposal));
                    let f = |p: ProposalView|
                        if p.id == proposal_id@ {
                            ProposalView { votes: p.votes.insert(caller@, vote), ..p }
                        } else {
                            p
                        };
                    assert forall|j: int| 0 <= j < self@.proposals.len()
                        implies self@.proposals[j] == f(prior.proposals[j]) by {
                        assert(prior.proposals[j] == old(self).proposals@[j]@);
                        assert(self@.proposals[j] == self.proposals@[j]@);
                        if j != i as int {
                            assert(prior.proposals[i as int].id != prior.proposals[j].id);
                        }
                    }
                    assert(self@.proposals =~= prior.proposals.map_values(f));
                    assert(self@ =~= prior.cast_vote(proposal_id@, caller@, vote));
                }
                Ok(())
            },
        }
    }

    /// A snapshot of all community spaces, in creation order. Spaces are
    /// public to read: no authorization check.
    pub fn get_community_spaces(&self) -> (r: Vec<CommunitySpace>)
        ensures
            r@.map_values(|s: CommunitySpace| s@) == self@.spaces,
    {
        let mut r: Vec<CommunitySpace> = Vec::new();
        let mut i: usize = 0;
        while i < self.spaces.len()
            invariant
                i <= self.spaces@.len(),
                r@.len() == i,
                forall|j: int| 0 <= j < i ==> r@[j]@ == self.spaces@[j]@,
            decreases self.spaces@.len() - i,
        {
            r.push(self.spaces[i].clone());
            i += 1;
        }
        proof {
            assert(r@.map_values(|s: CommunitySpace| s@) =~= self@.spaces);
        }
        r
    }

    /// The posts whose recorded space id equals `space_id`, in creation
    /// order; empty (not an error) if the space does not exist or holds no
    /// posts.
    pub fn get_posts_for_space(&self, space_id: &String) -> (r: Vec<Post>)
        ensures
            r@.map_values(|p: Post| p@) == self@.posts_for(space_id@),
    {
        let mut r: Vec<Post> = Vec::new();
        let mut i: usize = 0;
        while i < self.posts.len()
            invariant
                i <= self.posts@.len(),
                r@.map_values(|p: Post| p@) == self@.posts.take(i as int).filter(
                    |p: PostView| p.space_id == space_id@,
                ),
            decreases self.posts@.len() - i,
        {
            let ghost prefix = self@.posts.take(i as int);
            let ghost cur = self@.posts[i as int];
            proof {
                assert(self@.posts.take(i + 1) =~= prefix.push(cur));
                lemma_filter_push(prefix, |p: PostView| p.space_id == space_id@, cur);
                assert(cur == self.posts@[i as int]@);
            }
            if self.posts[i].space_id == *space_id {
                let ghost rs0 = r@;
                r.push(self.posts[i].clone());
                proof {
                    assert(cur.space_id == space_id@);
                    assert(r@.last()@ == cur);
                    assert(r@.drop_last() =~= rs0);
                    assert(r@.map_values(|p: Post| p@) =~= rs0.map_values(
                        |p: Post| p@,
                    ).push(cur));
                    assert(r@.map_values(|p: Post| p@) == self@.posts.take(i + 1).filter(
                        |p: PostView| p.space_id == space_id@,
                    ));
                }
            } else {
                proof {
                    assert(cur.space_id != space_id@);
                    assert(r@.map_values(|p: Post| p@) == self@.posts.take(i + 1).filter(
                        |p: PostView| p.space_id == space_id@,
                    ));
                }
            }
            i += 1;
        }
        proof {
            assert(self@.posts.take(self.posts@.len() as int) =~= self@.posts);
        }
        r
    }

    /// A snapshot of all proposals, each with its current vote mapping, in
    /// creation order.
    pub fn get_proposals(&self) -> (r: Vec<Proposal>)
        ensures
            r@.map_values(|p: Proposal| p@) == self@.proposals,
    {
        let mut r: Vec<Proposal> = Vec::new();
        let mut i: usize = 0;
        while i < self.proposals.len()
            invariant
                i <= self.proposals@.len(),
                r@.len() == i,
                forall|j: int| 0 <= j < i ==> r@[j]@ == self.proposals@[j]@,
            decreases self.proposals@.len() - i,
        {
            r.push(self.proposals[i].clone());
            i += 1;
        }
        proof {
            assert(r@.map_values(|p: Proposal| p@) =~= self@.proposals);
        }
        r
    }

    /// The vote mapping of the matching proposal, as a ballot list with at
    /// most one entry per voter; empty (not an error) if no proposal
    /// matches.
    pub fn get_votes_for_proposal(&self, proposal_id: &String) -> (r: Vec<Vote>)
        requires
            self.inv(),
        ensures
            assoc_map(vote_pairs(r@)) == self@.votes_for(proposal_id@),
            unique_keys(vote_pairs(r@)),
    {
        match self.find_proposal(proposal_id) {
            None => {
                let r: Vec<Vote> = Vec::new();
                proof {
                    assert forall|j: int| 0 <= j < self@.proposals.len()
                        implies self@.proposals[j].id != proposal_id@ by {
                        assert(self@.proposals[j] == self.proposals@[j]@);
                    }
                    assert(vote_pairs(r@) =~= Seq::<(Seq<u8>, VoteOption)>::empty());
                }
                r
            },
            Some(i) => {
                let r = self.proposals[i].votes.clone();
                proof {
                    assert(vote_pairs(r@) =~= vote_pairs(self.proposals@[i as int].votes@));
                    assert(self@.proposals[i as int] == self.proposals@[i as int]@);
                    assert(self@.has_proposal(proposal_id@));
                    let k = choose|k: int|
                        0 <= k < self@.proposals.len() && self@.proposals[k].id == proposal_id@;
                    if k != i as int {
                        assert(self@.proposals[i as int].id != self@.proposals[k].id);
                    }
                    assert(k == i as int);
                }
                r
            },
        }
    }
}

} // verus!

