//! Laws the store's transitions obey, stated over [`StoreView`] and
//! proved once and for all.

use vstd::prelude::*;

use crate::entities::VoteOption;
use crate::store::StoreView;

verus! {

/// Uniqueness of space ids: once a space with an id has been created, a
/// second creation under the same id is a no-op — the first space's name
/// and location stay untouched — and the id names exactly one space.
pub proof fn lemma_create_space_unique(
    s: StoreView,
    id: Seq<char>,
    name1: Seq<char>,
    loc1: Option<Seq<char>>,
    name2: Seq<char>,
    loc2: Option<Seq<char>>,
)
    requires
        s.wf(),
        !s.has_space(id),
    ensures
        ({
            let s1 = s.create_space(id, name1, loc1);
            &&& s1.wf()
            &&& s1.has_space(id)
            &&& s1.create_space(id, name2, loc2) == s1
            &&& forall|i: int, j: int|
                0 <= i < s1.spaces.len() && 0 <= j < s1.spaces.len() && s1.spaces[i].id == id
                    && s1.spaces[j].id == id ==> i == j
            &&& s1.spaces.last().id == id && s1.spaces.last().name == name1
                && s1.spaces.last().physical_location == loc1
        }),
{
    let s1 = s.create_space(id, name1, loc1);
    assert(s1.spaces.last().id == id);
    assert(s1.has_space(id));
}

/// Vote overwrite: a second vote by the same identity on the same
/// proposal replaces the first, so two votes in a row leave exactly the
/// state the second alone would have left.
pub proof fn lemma_vote_overwrite(
    s: StoreView,
    proposal_id: Seq<char>,
    who: Seq<u8>,
    first: VoteOption,
    second: VoteOption,
)
    ensures
        s.cast_vote(proposal_id, who, first).cast_vote(proposal_id, who, second)
            == s.cast_vote(proposal_id, who, second),
{
    let s1 = s.cast_vote(proposal_id, who, first);
    let s2 = s1.cast_vote(proposal_id, who, second);
    let s3 = s.cast_vote(proposal_id, who, second);
    assert forall|j: int| 0 <= j < s.proposals.len() implies s2.proposals[j]
        == s3.proposals[j] by {
        let p = s.proposals[j];
        if p.id == proposal_id {
            assert(p.votes.insert(who, first).insert(who, second) =~= p.votes.insert(
                who,
                second,
            ));
            assert(s2.proposals[j] =~= s3.proposals[j]);
        }
    }
    assert(s2.proposals =~= s3.proposals);
    assert(s2 =~= s3);
}

/// After a vote, the proposal's mapping holds exactly one entry for the
/// voter, equal to the vote cast; entries of other voters are untouched.
pub proof fn lemma_vote_recorded(
    s: StoreView,
    proposal_id: Seq<char>,
    who: Seq<u8>,
    choice: VoteOption,
)
    requires
        s.wf(),
        s.has_proposal(proposal_id),
    ensures
        s.cast_vote(proposal_id, who, choice).votes_for(proposal_id) == s.votes_for(
            proposal_id,
        ).insert(who, choice),
{
    let s1 = s.cast_vote(proposal_id, who, choice);
    let k0 = choose|i: int| 0 <= i < s.proposals.len() && s.proposals[i].id == proposal_id;
    assert(s1.proposals[k0].id == proposal_id);
    assert(s1.has_proposal(proposal_id));
    let k1 = choose|i: int| 0 <= i < s1.proposals.len() && s1.proposals[i].id == proposal_id;
    assert(s.proposals[k1].id == proposal_id);
    if k0 != k1 {
        assert(s.proposals[k0].id == s.proposals[k1].id);
        assert(false);
    }
    assert(s1.votes_for(proposal_id) == s.proposals[k0].votes.insert(who, choice));
}

/// Idempotent join: joining the same space twice with the same caller
/// leaves exactly the state one join leaves.
pub proof fn lemma_join_idempotent(s: StoreView, space_id: Seq<char>, who: Seq<u8>)
    ensures
        s.join_space(space_id, who).join_space(space_id, who) == s.join_space(space_id, who),
{
    let s1 = s.join_space(space_id, who);
    let s2 = s1.join_space(space_id, who);
    assert forall|j: int| 0 <= j < s.spaces.len() implies s2.spaces[j] == s1.spaces[j] by {
        let sp = s.spaces[j];
        if sp.id == space_id {
            assert(sp.members.insert(who).insert(who) =~= sp.members.insert(who));
            assert(s2.spaces[j] =~= s1.spaces[j]);
        }
    }
    assert(s2.spaces =~= s1.spaces);
    assert(s2 =~= s1);
}

} // verus!

