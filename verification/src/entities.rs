//! The entity records the store keeps: users, community spaces, posts,
//! proposals and their ballots.
//!
//! Each executable record has a ghost view over plain mathematical values:
//! strings become `Seq<char>`, identities become their byte sequences,
//! member lists become a `Set`, and vote lists become a `Map` from voter
//! to choice.

use vstd::prelude::*;

use crate::assoc::assoc_map;
use crate::identity::Identity;

verus! {

/// A single-choice ballot value: a closed two-value enumeration.
#[derive(Clone, Copy, Debug, PartialEq, Eq, Structural)]
pub enum VoteOption {
    Yes,
    No,
}

/// The recoverable conditions an operation can report. None of them leaves
/// the store partially mutated.
#[derive(Clone, Copy, Debug, PartialEq, Eq, Structural)]
pub enum StoreError {
    /// A create operation targets an id already in use.
    DuplicateKey,
    /// A target space or proposal id does not exist.
    NotFound,
    /// The caller lacks the required membership.
    Forbidden,
}

/// A registered participant, keyed by identity.
#[derive(Debug)]
pub struct User {
    pub identity: Identity,
    pub trust_level: u8,
}

/// A named community space and its member set. Membership only grows.
#[derive(Debug)]
pub struct CommunitySpace {
    pub id: String,
    pub name: String,
    pub members: Vec<Identity>,
    pub physical_location: Option<String>,
}

/// A message posted into a space; immutable once created. The originating
/// space id is recorded at creation time.
#[derive(Debug)]
pub struct Post {
    pub space_id: String,
    pub author: Identity,
    pub content: String,
    pub timestamp: u64,
}

/// One recorded ballot: a voter and that voter's current choice.
#[derive(Debug)]
pub struct Vote {
    pub voter: Identity,
    pub choice: VoteOption,
}

/// A governance proposal with its vote mapping (at most one ballot per
/// voter; a repeated vote replaces the prior one).
#[derive(Debug)]
pub struct Proposal {
    pub id: String,
    pub proposed_by: Identity,
    pub description: String,
    pub votes: Vec<Vote>,
}

/// The mathematical value of a community space.
#[verifier::ext_equal]
pub ghost struct SpaceView {
    pub id: Seq<char>,
    pub name: Seq<char>,
    pub members: Set<Seq<u8>>,
    pub physical_location: Option<Seq<char>>,
}

/// The mathematical value of a post.
#[verifier::ext_equal]
pub ghost struct PostView {
    pub space_id: Seq<char>,
    pub author: Seq<u8>,
    pub content: Seq<char>,
    pub timestamp: u64,
}

/// The mathematical value of a proposal.
#[verifier::ext_equal]
pub ghost struct ProposalView {
    pub id: Seq<char>,
    pub proposed_by: Seq<u8>,
    pub description: Seq<char>,
    pub votes: Map<Seq<u8>, VoteOption>,
}

/// The set of identities a member list holds.
pub open spec fn member_set(ms: Seq<Identity>) -> Set<Seq<u8>> {
    Set::new(|b: Seq<u8>| exists|i: int| 0 <= i < ms.len() && ms[i]@ == b)
}

/// No two entries of a member list are the same identity.
pub open spec fn distinct_identities(ms: Seq<Identity>) -> bool {
    forall|i: int, j: int| 0 <= i < j < ms.len() ==> ms[i]@ != ms[j]@
}

/// A vote list as an association sequence from voter to choice.
pub open spec fn vote_pairs(vs: Seq<Vote>) -> Seq<(Seq<u8>, VoteOption)> {
    vs.map_values(|v: Vote| (v.voter@, v.choice))
}

/// A user list as an association sequence from identity to trust level.
pub open spec fn user_pairs(us: Seq<User>) -> Seq<(Seq<u8>, u8)> {
    us.map_values(|u: User| (u.identity@, u.trust_level))
}

impl View for CommunitySpace {
    type V = SpaceView;

    open spec fn view(&self) -> SpaceView {
        SpaceView {
            id: self.id@,
            name: self.name@,
            members: member_set(self.members@),
            physical_location: self.physical_location.deep_view(),
        }
    }
}

impl View for Post {
    type V = PostView;

    open spec fn view(&self) -> PostView {
        PostView {
            space_id: self.space_id@,
            author: self.author@,
            content: self.content@,
            timestamp: self.timestamp,
        }
    }
}

impl View for Proposal {
    type V = ProposalView;

    open spec fn view(&self) -> ProposalView {
        ProposalView {
            id: self.id@,
            proposed_by: self.proposed_by@,
            description: self.description@,
            votes: assoc_map(vote_pairs(self.votes@)),
        }
    }
}

impl Clone for Vote {
    fn clone(&self) -> (r: Self)
        ensures
            r.voter@ == self.voter@,
            r.choice == self.choice,
    {
        Vote { voter: self.voter.clone(), choice: self.choice }
    }
}

impl Clone for CommunitySpace {
    fn clone(&self) -> (r: Self)
        ensures
            r@ == self@,
    {
        let members = self.members.clone();
        let physical_location = match &self.physical_location {
            Some(l) => Some(l.clone()),
            None => None,
        };
        let r = CommunitySpace {
            id: self.id.clone(),
            name: self.name.clone(),
            members,
            physical_location,
        };
        proof {
            assert forall|b: Seq<u8>| member_set(r.members@).contains(b)
                <==> member_set(self.members@).contains(b) by {
                if member_set(r.members@).contains(b) {
                    let i = choose|i: int| 0 <= i < r.members@.len() && r.members@[i]@ == b;
                    assert(self.members@[i]@ == b);
                }
                if member_set(self.members@).contains(b) {
                    let i = choose|i: int|
                        0 <= i < self.members@.len() && self.members@[i]@ == b;
                    assert(r.members@[i]@ == b);
                }
            }
            assert(member_set(r.members@) =~= member_set(self.members@));
            assert(r@ =~= self@);
        }
        r
    }
}

impl Clone for Post {
    fn clone(&self) -> (r: Self)
        ensures
            r@ == self@,
    {
        Post {
            space_id: self.space_id.clone(),
            author: self.author.clone(),
            content: self.content.clone(),
            timestamp: self.timestamp,
        }
    }
}

impl Clone for Proposal {
    fn clone(&self) -> (r: Self)
        ensures
            r@ == self@,
    {
        let votes = self.votes.clone();
        let r = Proposal {
            id: self.id.clone(),
            proposed_by: self.proposed_by.clone(),
            description: self.description.clone(),
            votes,
        };
        proof {
            assert(vote_pairs(r.votes@) =~= vote_pairs(self.votes@));
            assert(r@ =~= self@);
        }
        r
    }
}

} // verus!
