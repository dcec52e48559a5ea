//! Friend lists: the usernames an account has added.

use crate::account::{Account, AccountStore, AccountView};
use crate::text::{holds_name, texts};
use vstd::prelude::*;

verus! {

/// `names` without every occurrence of `name`.
pub open spec fn without(names: Seq<Seq<char>>, name: Seq<char>) -> Seq<Seq<char>>
    decreases names.len(),
{
    if names.len() == 0 {
        Seq::empty()
    } else if names.last() == name {
        without(names.drop_last(), name)
    } else {
        without(names.drop_last(), name).push(names.last())
    }
}

/// `without` holds every other name of its argument, and never the one taken out.
pub proof fn lemma_without(names: Seq<Seq<char>>, name: Seq<char>)
    ensures
        !without(names, name).contains(name),
        forall|other: Seq<char>|
            other != name ==> (without(names, name).contains(other) <==> names.contains(other)),
    decreases names.len(),
{
    if names.len() > 0 {
        let front = names.drop_last();
        let last = names.last();
        lemma_without(front, name);
        let rest = without(names, name);
        if rest.contains(name) {
            let k = choose|k: int| 0 <= k < rest.len() && rest[k] == name;
            if k < without(front, name).len() {
                assert(without(front, name)[k] == name);
            }
        }
        assert forall|other: Seq<char>| other != name implies (rest.contains(other)
            <==> names.contains(other)) by {
            if names.contains(other) {
                let i = choose|i: int| 0 <= i < names.len() && names[i] == other;
                if i < front.len() {
                    assert(front[i] == other);
                    assert(front.contains(other));
                    let k = choose|k: int|
                        0 <= k < without(front, name).len() && without(front, name)[k] == other;
                    assert(rest[k] == other);
                } else {
                    assert(rest[rest.len() - 1] == other);
                }
            }
            if rest.contains(other) {
                let k = choose|k: int| 0 <= k < rest.len() && rest[k] == other;
                if k < without(front, name).len() {
                    assert(without(front, name)[k] == other);
                    assert(front.contains(other));
                    let i = choose|i: int| 0 <= i < front.len() && front[i] == other;
                    assert(names[i] == other);
                } else {
                    assert(names[names.len() - 1] == other);
                }
            }
        }
    }
}

/// `account` with `friends` for its friend list, and nothing else changed.
pub open spec fn with_friends(account: AccountView, friends: Seq<Seq<char>>) -> AccountView {
    AccountView { friends, ..account }
}

/// Whether `user` may add `friend`: both have an account, and `friend` is not
/// yet on the list of `user`.
pub open spec fn can_add(
    accounts: Map<Seq<char>, AccountView>,
    user: Seq<char>,
    friend: Seq<char>,
) -> bool {
    &&& accounts.contains_key(user)
    &&& accounts.contains_key(friend)
    &&& !accounts[user].friends.contains(friend)
}

/// Whether `user` may remove `friend`: `user` has an account with `friend`
/// on its list.
pub open spec fn can_remove(
    accounts: Map<Seq<char>, AccountView>,
    user: Seq<char>,
    friend: Seq<char>,
) -> bool {
    accounts.contains_key(user) && accounts[user].friends.contains(friend)
}

/// `names` without every occurrence of `name`.
fn names_without(names: &Vec<String>, name: &String) -> (out: Vec<String>)
    ensures
        texts(out@) == without(texts(names@), name@),
{
    let mut out: Vec<String> = Vec::new();
    let mut i: usize = 0;
    assert(texts(out@) =~= without(texts(names@).subrange(0, 0), name@));
    while i < names.len()
        invariant
            i <= names@.len(),
            texts(out@) == without(texts(names@).subrange(0, i as int), name@),
        decreases names@.len() - i,
    {
        let ghost upto = texts(names@).subrange(0, i + 1);
        assert(upto.drop_last() =~= texts(names@).subrange(0, i as int));
        assert(upto.last() == names@[i as int]@);
        if !(names[i] == *name) {
            let ghost before = texts(out@);
            out.push(names[i].clone());
            assert(texts(out@) =~= before.push(names@[i as int]@));
        }
        i += 1;
    }
    assert(texts(names@).subrange(0, names@.len() as int) =~= texts(names@));
    out
}

/// Puts `friend` behind the friends of the account stored under the username
/// of `user`; says whether it did.
///
/// It does exactly where [`can_add`] holds of the stored accounts. What
/// `user` itself lists as friends plays no part: the stored account decides.
pub fn add_friend(store: &mut AccountStore, user: &Account, friend: &str) -> (added: bool)
    ensures
        added == can_add(old(store)@, user.username@, friend@),
        added ==> final(store)@ == old(store)@.insert(
            user.username@,
            with_friends(
                old(store)@[user.username@],
                old(store)@[user.username@].friends.push(friend@),
            ),
        ),
        !added ==> final(store)@ == old(store)@,
{
    let friend_name = friend.to_owned();
    let mut stored = match Account::get_account(store, &user.username) {
        Some(a) => a,
        None => {
            return false;
        },
    };
    if !store.contains(&friend_name) {
        return false;
    }
    if holds_name(&stored.friends, &friend_name) {
        return false;
    }
    let ghost before = stored@;
    stored.friends.push(friend_name);
    assert(texts(stored.friends@) =~= before.friends.push(friend@));
    Account::update_account(store, &stored).is_ok()
}

/// Takes `friend` off the friends of the account stored under the username
/// of `user`; says whether it did.
///
/// It does exactly where [`can_remove`] holds of the stored accounts.
pub fn remove_friend(store: &mut AccountStore, user: &Account, friend: &str) -> (removed: bool)
    ensures
        removed == can_remove(old(store)@, user.username@, friend@),
        removed ==> final(store)@ == old(store)@.insert(
            user.username@,
            with_friends(
                old(store)@[user.username@],
                without(old(store)@[user.username@].friends, friend@),
            ),
        ),
        !removed ==> final(store)@ == old(store)@,
{
    let friend_name = friend.to_owned();
    let mut stored = match Account::get_account(store, &user.username) {
        Some(a) => a,
        None => {
            return false;
        },
    };
    if !holds_name(&stored.friends, &friend_name) {
        return false;
    }
    stored.friends = names_without(&stored.friends, &friend_name);
    Account::update_account(store, &stored).is_ok()
}

/// A friend that was added and then removed is no longer on the list, and
/// everyone else on it still is.
pub proof fn law_add_then_remove(friends: Seq<Seq<char>>, friend: Seq<char>, other: Seq<char>)
    requires
        other != friend,
    ensures
        !without(friends.push(friend), friend).contains(friend),
        without(friends.push(friend), friend).contains(other) <==> friends.contains(other),
{
    lemma_without(friends.push(friend), friend);
    if friends.contains(other) {
        let i = choose|i: int| 0 <= i < friends.len() && friends[i] == other;
        assert(friends.push(friend)[i] == other);
    }
    if friends.push(friend).contains(other) {
        let i = choose|i: int|
            0 <= i < friends.push(friend).len() && friends.push(friend)[i] == other;
        assert(friends[i] == other);
    }
}

} // verus!
