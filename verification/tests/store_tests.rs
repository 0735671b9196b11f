use community_store::entities::{StoreError, VoteOption};
use community_store::identity::Identity;
use community_store::store::CommunityStore;

fn ident(b: u8) -> Identity {
    Identity::from_bytes(vec![b])
}

#[test]
fn new_store_is_empty() {
    let store = CommunityStore::new();
    assert_eq!(store.get_community_spaces().len(), 0);
    assert_eq!(store.get_proposals().len(), 0);
    assert_eq!(store.get_posts_for_space(&"s1".to_string()).len(), 0);
    assert_eq!(store.get_votes_for_proposal(&"p1".to_string()).len(), 0);
}

#[test]
fn register_join_post_flow() {
    let mut store = CommunityStore::new();
    let a = ident(1);
    store.register_user(&a, 1);
    assert_eq!(
        store.create_community_space("s1".to_string(), "First".to_string(), None),
        Ok(())
    );
    assert_eq!(store.join_community_space(&a, &"s1".to_string()), Ok(()));
    assert_eq!(
        store.post_message(&a, 7, &"s1".to_string(), "hello".to_string()),
        Ok(())
    );
    let posts = store.get_posts_for_space(&"s1".to_string());
    assert_eq!(posts.len(), 1);
    assert!(posts[0].author == a);
    assert_eq!(posts[0].content, "hello");
    assert_eq!(posts[0].space_id, "s1");
    assert_eq!(posts[0].timestamp, 7);
}

#[test]
fn duplicate_space_id_is_rejected_without_mutation() {
    let mut store = CommunityStore::new();
    assert_eq!(
        store.create_community_space("s1".to_string(), "First".to_string(), Some("Here".to_string())),
        Ok(())
    );
    assert_eq!(
        store.create_community_space("s1".to_string(), "Second".to_string(), None),
        Err(StoreError::DuplicateKey)
    );
    let spaces = store.get_community_spaces();
    assert_eq!(spaces.len(), 1);
    assert_eq!(spaces[0].id, "s1");
    assert_eq!(spaces[0].name, "First");
    assert_eq!(spaces[0].physical_location, Some("Here".to_string()));
}

#[test]
fn join_missing_space_reports_not_found() {
    let mut store = CommunityStore::new();
    let a = ident(1);
    assert_eq!(
        store.join_community_space(&a, &"nowhere".to_string()),
        Err(StoreError::NotFound)
    );
    assert_eq!(store.get_community_spaces().len(), 0);
}

#[test]
fn join_twice_keeps_member_count() {
    let mut store = CommunityStore::new();
    let a = ident(1);
    store
        .create_community_space("s1".to_string(), "First".to_string(), None)
        .unwrap();
    store.join_community_space(&a, &"s1".to_string()).unwrap();
    let once = store.get_community_spaces()[0].members.len();
    store.join_community_space(&a, &"s1".to_string()).unwrap();
    let twice = store.get_community_spaces()[0].members.len();
    assert_eq!(once, 1);
    assert_eq!(twice, once);
}

#[test]
fn non_member_post_is_forbidden_and_appends_nothing() {
    let mut store = CommunityStore::new();
    let a = ident(1);
    let b = ident(2);
    store
        .create_community_space("s1".to_string(), "First".to_string(), None)
        .unwrap();
    store.join_community_space(&a, &"s1".to_string()).unwrap();
    store
        .post_message(&a, 1, &"s1".to_string(), "hello".to_string())
        .unwrap();
    assert_eq!(
        store.post_message(&b, 2, &"s1".to_string(), "x".to_string()),
        Err(StoreError::Forbidden)
    );
    let posts = store.get_posts_for_space(&"s1".to_string());
    assert_eq!(posts.len(), 1);
    assert_eq!(posts[0].content, "hello");
}

#[test]
fn post_into_missing_space_reports_not_found() {
    let mut store = CommunityStore::new();
    let a = ident(1);
    assert_eq!(
        store.post_message(&a, 1, &"s1".to_string(), "x".to_string()),
        Err(StoreError::NotFound)
    );
    assert_eq!(store.get_posts_for_space(&"s1".to_string()).len(), 0);
}

#[test]
fn posts_are_scoped_to_their_space() {
    let mut store = CommunityStore::new();
    let a = ident(1);
    store
        .create_community_space("s1".to_string(), "First".to_string(), None)
        .unwrap();
    store
        .create_community_space("s2".to_string(), "Second".to_string(), None)
        .unwrap();
    store.join_community_space(&a, &"s1".to_string()).unwrap();
    store.join_community_space(&a, &"s2".to_string()).unwrap();
    store
        .post_message(&a, 1, &"s1".to_string(), "one".to_string())
        .unwrap();
    store
        .post_message(&a, 2, &"s2".to_string(), "two".to_string())
        .unwrap();
    store
        .post_message(&a, 3, &"s1".to_string(), "three".to_string())
        .unwrap();
    let s1_posts = store.get_posts_for_space(&"s1".to_string());
    assert_eq!(s1_posts.len(), 2);
    assert_eq!(s1_posts[0].content, "one");
    assert_eq!(s1_posts[1].content, "three");
    let s2_posts = store.get_posts_for_space(&"s2".to_string());
    assert_eq!(s2_posts.len(), 1);
    assert_eq!(s2_posts[0].content, "two");
}

#[test]
fn duplicate_proposal_id_is_rejected() {
    let mut store = CommunityStore::new();
    let a = ident(1);
    assert_eq!(
        store.create_proposal(&a, "p1".to_string(), "first".to_string()),
        Ok(())
    );
    assert_eq!(
        store.create_proposal(&a, "p1".to_string(), "second".to_string()),
        Err(StoreError::DuplicateKey)
    );
    let proposals = store.get_proposals();
    assert_eq!(proposals.len(), 1);
    assert_eq!(proposals[0].description, "first");
    assert!(proposals[0].proposed_by == a);
}

#[test]
fn revote_overwrites_prior_vote() {
    let mut store = CommunityStore::new();
    let a = ident(1);
    store
        .create_proposal(&a, "p1".to_string(), "desc".to_string())
        .unwrap();
    assert_eq!(
        store.vote_on_proposal(&a, &"p1".to_string(), VoteOption::Yes),
        Ok(())
    );
    assert_eq!(
        store.vote_on_proposal(&a, &"p1".to_string(), VoteOption::No),
        Ok(())
    );
    let votes = store.get_votes_for_proposal(&"p1".to_string());
    assert_eq!(votes.len(), 1);
    assert!(votes[0].voter == a);
    assert_eq!(votes[0].choice, VoteOption::No);
}

#[test]
fn votes_of_distinct_identities_accumulate() {
    let mut store = CommunityStore::new();
    let a = ident(1);
    let b = ident(2);
    store
        .create_proposal(&a, "p1".to_string(), "desc".to_string())
        .unwrap();
    store
        .vote_on_proposal(&a, &"p1".to_string(), VoteOption::Yes)
        .unwrap();
    store
        .vote_on_proposal(&b, &"p1".to_string(), VoteOption::No)
        .unwrap();
    let votes = store.get_votes_for_proposal(&"p1".to_string());
    assert_eq!(votes.len(), 2);
    let a_choice = votes.iter().find(|v| v.voter == a).unwrap().choice;
    let b_choice = votes.iter().find(|v| v.voter == b).unwrap().choice;
    assert_eq!(a_choice, VoteOption::Yes);
    assert_eq!(b_choice, VoteOption::No);
}

#[test]
fn vote_on_missing_proposal_reports_not_found() {
    let mut store = CommunityStore::new();
    let a = ident(1);
    assert_eq!(
        store.vote_on_proposal(&a, &"p1".to_string(), VoteOption::Yes),
        Err(StoreError::NotFound)
    );
    assert_eq!(store.get_votes_for_proposal(&"p1".to_string()).len(), 0);
}

#[test]
fn reads_repeat_identically_without_mutation() {
    let mut store = CommunityStore::new();
    let a = ident(1);
    store.register_user(&a, 1);
    store
        .create_community_space("s1".to_string(), "First".to_string(), None)
        .unwrap();
    store.join_community_space(&a, &"s1".to_string()).unwrap();
    store
        .post_message(&a, 1, &"s1".to_string(), "hello".to_string())
        .unwrap();
    store
        .create_proposal(&a, "p1".to_string(), "desc".to_string())
        .unwrap();
    store
        .vote_on_proposal(&a, &"p1".to_string(), VoteOption::Yes)
        .unwrap();

    let spaces1 = store.get_community_spaces();
    let spaces2 = store.get_community_spaces();
    assert_eq!(spaces1.len(), spaces2.len());
    assert_eq!(spaces1[0].id, spaces2[0].id);
    assert_eq!(spaces1[0].name, spaces2[0].name);
    assert_eq!(spaces1[0].members.len(), spaces2[0].members.len());

    let posts1 = store.get_posts_for_space(&"s1".to_string());
    let posts2 = store.get_posts_for_space(&"s1".to_string());
    assert_eq!(posts1.len(), posts2.len());
    assert_eq!(posts1[0].content, posts2[0].content);
    assert_eq!(posts1[0].timestamp, posts2[0].timestamp);

    let proposals1 = store.get_proposals();
    let proposals2 = store.get_proposals();
    assert_eq!(proposals1.len(), proposals2.len());
    assert_eq!(proposals1[0].id, proposals2[0].id);

    let votes1 = store.get_votes_for_proposal(&"p1".to_string());
    let votes2 = store.get_votes_for_proposal(&"p1".to_string());
    assert_eq!(votes1.len(), votes2.len());
    assert_eq!(votes1[0].choice, votes2[0].choice);
}

#[test]
fn register_user_twice_overwrites_silently() {
    let mut store = CommunityStore::new();
    let a = ident(1);
    store.register_user(&a, 1);
    store.register_user(&a, 3);
    // No read surface exists for users; the calls must simply succeed and
    // leave the rest of the store untouched.
    assert_eq!(store.get_community_spaces().len(), 0);
    assert_eq!(store.get_proposals().len(), 0);
}

#[test]
fn identity_equality_is_by_bytes() {
    let a1 = ident(1);
    let a2 = ident(1);
    let b = ident(2);
    assert!(a1 == a2);
    assert!(a1 != b);
    assert_eq!(a1.as_bytes(), &vec![1u8]);
}
