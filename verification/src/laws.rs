//! What holds of the store whatever it holds and whatever is asked of it.

use crate::error::not_found;
use crate::listing::{key_limit, lemma_below_keys, ordered};
use crate::model::{LeaderboardData, UserRole};
use crate::request::{Kind, Request};
use crate::state::{with_role, StoreData};
use vstd::prelude::*;

verus! {

/// The identifiers that are issued while requests are handled one after the
/// other, each with the time at which it is handled.
pub open spec fn issued(store: StoreData, requests: Seq<(Request, u64)>) -> Seq<u64>
    decreases requests.len(),
{
    if requests.len() == 0 {
        Seq::empty()
    } else {
        let (request, now) = requests.first();
        let later = issued(store.handle(request, now), requests.drop_first());
        match store.issues(request) {
            Some(id) => seq![id] + later,
            None => later,
        }
    }
}

/// Every identifier is greater than each one issued before it, whatever the
/// kinds of the requests and whether others among them are refused.
pub proof fn lemma_identifiers_ascend(store: StoreData, requests: Seq<(Request, u64)>)
    requires
        store.last_id + requests.len() <= u64::MAX,
    ensures
        forall|i: int|
            0 <= i < issued(store, requests).len() ==> store.last_id < #[trigger] issued(
                store,
                requests,
            )[i],
        forall|i: int, j: int|
            0 <= i < j < issued(store, requests).len() ==> issued(store, requests)[i] < issued(
                store,
                requests,
            )[j],
    decreases requests.len(),
{
    if requests.len() > 0 {
        let (request, now) = requests.first();
        let next = store.handle(request, now);
        let later = issued(next, requests.drop_first());
        let all = issued(store, requests);
        assert(store.last_id <= next.last_id <= store.last_id + 1);
        lemma_identifiers_ascend(next, requests.drop_first());
        match store.issues(request) {
            Some(id) => {
                assert(all == seq![id] + later);
                assert(id == next.last_id);
                assert forall|i: int| 0 <= i < all.len() implies store.last_id
                    < #[trigger] all[i] by {
                    if i > 0 {
                        assert(all[i] == later[i - 1]);
                    }
                }
                assert forall|i: int, j: int| 0 <= i < j < all.len() implies all[i] < all[j] by {
                    assert(all[j] == later[j - 1]);
                    if i > 0 {
                        assert(all[i] == later[i - 1]);
                    }
                }
            },
            None => {
                assert(all == later);
            },
        }
    }
}

/// A request for a song, a tip or a rating with its fields in order is refused
/// as `NotFound` where its user is not in the store, and accepted where it is.
pub proof fn lemma_user_must_exist(store: StoreData, request: Request)
    requires
        request.well_formed(),
        request.user() is Some,
    ensures
        store.users.contains_key(request.user().unwrap()) ==> store.refusal(request) is None,
        !store.users.contains_key(request.user().unwrap()) ==> store.refusal(request) == Some(
            not_found("User not found"@),
        ),
{
}

/// A request for a playlist with its fields in order is refused as `NotFound`
/// where its event is not in the store, and accepted where it is.
pub proof fn lemma_event_must_exist(store: StoreData, request: Request)
    requires
        request.well_formed(),
        request.event() is Some,
    ensures
        store.events.contains_key(request.event().unwrap()) ==> store.refusal(request) is None,
        !store.events.contains_key(request.event().unwrap()) ==> store.refusal(request) == Some(
            not_found("Event not found"@),
        ),
{
}

/// A request that is refused leaves the store as it was and uses no
/// identifier.
pub proof fn lemma_refused_changes_nothing(store: StoreData, request: Request, now: u64)
    requires
        store.refusal(request) is Some,
    ensures
        store.handle(request, now) == store,
        store.issues(request) is None,
{
}

/// An accepted request adds exactly one row: its identifier was no key
/// before, it is the one new key of the collection of its kind, and the other
/// collections keep their keys.
pub proof fn lemma_accept_adds_one_row(store: StoreData, request: Request, now: u64)
    requires
        store.issued_only(),
        store.last_id < u64::MAX,
    ensures
        !store.keys(request.kind()).contains(store.next_id()),
        store.accept(request, now).keys(request.kind()) == store.keys(request.kind()).insert(
            store.next_id(),
        ),
        store.keys(request.kind()).finite() ==> store.accept(request, now).keys(
            request.kind(),
        ).len() == store.keys(request.kind()).len() + 1,
        forall|kind: Kind|
            kind != request.kind() ==> #[trigger] store.accept(request, now).keys(kind)
                == store.keys(kind),
        store.accept(request, now).leaderboard == store.leaderboard,
        store.accept(request, now).last_id == store.last_id + 1,
{
    let id = store.next_id();
    let after = store.accept(request, now);
    assert(!store.keys(request.kind()).contains(id)) by {
        if store.keys(request.kind()).contains(id) {
            assert(id <= store.last_id);
        }
    }
    assert(after.keys(request.kind()) =~= store.keys(request.kind()).insert(id));
}

/// Handling a request keeps every key among the identifiers issued so far,
/// and every row under its own identifier.
pub proof fn lemma_handle_keeps_order(store: StoreData, request: Request, now: u64)
    requires
        store.last_id < u64::MAX,
    ensures
        store.issued_only() ==> store.handle(request, now).issued_only(),
        store.keyed() ==> store.handle(request, now).keyed(),
{
}

/// Deleting, awarding points, rating and entering a DJ on the leaderboard keep
/// every key among the identifiers issued so far, and every row under its own
/// identifier.
pub proof fn lemma_changes_keep_order(
    store: StoreData,
    id: u64,
    points: u64,
    rating: u8,
    dj_name: Seq<char>,
)
    ensures
        store.issued_only() ==> store.enlist(id, dj_name).issued_only(),
        store.keyed() ==> store.enlist(id, dj_name).keyed(),
        store.issued_only() ==> store.drop_user(id).issued_only(),
        store.issued_only() ==> store.drop_event(id).issued_only(),
        store.issued_only() ==> store.rate(id, rating).issued_only(),
        store.issued_only() && store.users.contains_key(id) ==> store.award(
            id,
            points,
        ).issued_only(),
        store.keyed() ==> store.drop_user(id).keyed(),
        store.keyed() ==> store.drop_event(id).keyed(),
        store.keyed() ==> store.rate(id, rating).keyed(),
        store.keyed() && store.users.contains_key(id) ==> store.award(id, points).keyed(),
{
}

/// Whatever is done to a store, the tips in it stay above nothing and the
/// ratings within their range.
pub proof fn lemma_rows_stay_in_range(
    store: StoreData,
    request: Request,
    now: u64,
    id: u64,
    points: u64,
    rating: u8,
    dj_name: Seq<char>,
)
    requires
        store.in_range(),
    ensures
        store.handle(request, now).in_range(),
        store.drop_user(id).in_range(),
        store.drop_event(id).in_range(),
        store.award(id, points).in_range(),
        store.enlist(id, dj_name).in_range(),
        store.rate(id, rating).in_range(),
{
}

/// The points of a user never fall: awarding adds to them, and nothing else
/// changes them while the user is in the store.
pub proof fn lemma_points_never_fall(
    store: StoreData,
    user: u64,
    request: Request,
    now: u64,
    id: u64,
    points: u64,
    rating: u8,
    dj_name: Seq<char>,
)
    requires
        store.users.contains_key(user),
        store.issued_only(),
        store.last_id < u64::MAX,
        store.users.contains_key(id) ==> store.users[id].points + points <= u64::MAX,
    ensures
        store.handle(request, now).users[user].points == store.users[user].points,
        store.drop_event(id).users[user].points == store.users[user].points,
        store.enlist(id, dj_name).users[user].points == store.users[user].points,
        store.rate(id, rating).users[user].points == store.users[user].points,
        id != user ==> store.drop_user(id).users[user].points == store.users[user].points,
        store.users.contains_key(id) ==> store.award(id, points).users[user].points
            >= store.users[user].points,
        store.users.contains_key(id) ==> store.award(id, points).users[id].points
            == store.users[id].points + points,
{
}

/// The sum of ratings.
pub open spec fn total(ratings: Seq<u8>) -> nat
    decreases ratings.len(),
{
    if ratings.len() == 0 {
        0
    } else {
        total(ratings.drop_last()) + ratings.last() as nat
    }
}

/// The row after the ratings were folded in, one after the other.
pub open spec fn fold_all(entry: LeaderboardData, ratings: Seq<u8>) -> LeaderboardData
    decreases ratings.len(),
{
    if ratings.len() == 0 {
        entry
    } else {
        fold_all(entry, ratings.drop_last()).fold(ratings.last())
    }
}

/// The sum of ratings is at most 255 for each.
pub proof fn lemma_total_bound(ratings: Seq<u8>)
    ensures
        total(ratings) <= 255 * ratings.len(),
    decreases ratings.len(),
{
    if ratings.len() > 0 {
        lemma_total_bound(ratings.drop_last());
    }
}

/// After ratings were folded into a row without ratings, the row counts them
/// and holds their sum: its mean is their mean. Every fold on the way finds
/// room for its numbers.
pub proof fn lemma_mean_of_folds(dj_name: Seq<char>, ratings: Seq<u8>)
    requires
        255 * ratings.len() <= u64::MAX,
    ensures
        fold_all(LeaderboardData::fresh(dj_name), ratings).total_ratings == ratings.len(),
        fold_all(LeaderboardData::fresh(dj_name), ratings).rating_sum == total(ratings),
        fold_all(LeaderboardData::fresh(dj_name), ratings).dj_name == dj_name,
        fold_all(LeaderboardData::fresh(dj_name), ratings).total_tips == 0,
        ratings.len() > 0 ==> fold_all(
            LeaderboardData::fresh(dj_name),
            ratings.drop_last(),
        ).can_fold(ratings.last()),
    decreases ratings.len(),
{
    if ratings.len() > 0 {
        lemma_mean_of_folds(dj_name, ratings.drop_last());
        lemma_total_bound(ratings.drop_last());
    }
}

/// Rating a DJ of the store again and again folds the ratings into the DJ's
/// row and leaves everything else as it was.
pub proof fn lemma_rate_all(store: StoreData, dj_id: u64, ratings: Seq<u8>)
    requires
        store.leaderboard.contains_key(dj_id),
    ensures
        store.rate_all(dj_id, ratings) == (StoreData {
            leaderboard: store.leaderboard.insert(
                dj_id,
                fold_all(store.leaderboard[dj_id], ratings),
            ),
            ..store
        }),
    decreases ratings.len(),
{
    if ratings.len() == 0 {
        assert(store.leaderboard.insert(dj_id, store.leaderboard[dj_id]) =~= store.leaderboard);
    } else {
        lemma_rate_all(store, dj_id, ratings.drop_last());
        let before = store.rate_all(dj_id, ratings.drop_last());
        assert(before.leaderboard.insert(dj_id, before.leaderboard[dj_id].fold(ratings.last()))
            =~= store.leaderboard.insert(dj_id, fold_all(store.leaderboard[dj_id], ratings)));
    }
}

/// Every row of a listing is kept under some key, and a collection without
/// keys has an empty listing, and only such a collection.
pub proof fn lemma_ordered_rows<V>(rows: Map<u64, V>)
    ensures
        forall|i: int|
            0 <= i < ordered(rows).len() ==> exists|key: u64|
                rows.contains_key(key) && #[trigger] ordered(rows)[i] == rows[key],
        ordered(rows).len() == 0 <==> forall|key: u64| !rows.contains_key(key),
{
    let keys = lemma_below_keys(rows, key_limit());
    assert forall|i: int| 0 <= i < ordered(rows).len() implies exists|key: u64|
        rows.contains_key(key) && #[trigger] ordered(rows)[i] == rows[key] by {
        assert(rows.contains_key(keys[i]) && ordered(rows)[i] == rows[keys[i]]);
    }
    if ordered(rows).len() == 0 {
        assert forall|key: u64| !rows.contains_key(key) by {
            if rows.contains_key(key) {
                let i = choose|i: int| 0 <= i < keys.len() && #[trigger] keys[i] == key;
            }
        }
    } else {
        assert(rows.contains_key(keys[0]));
    }
}

/// After a user was deleted, no search by role finds a user with that
/// identifier.
pub proof fn lemma_deleted_user_not_found(store: StoreData, id: u64, role: UserRole)
    requires
        store.keyed(),
    ensures
        forall|i: int|
            0 <= i < ordered(store.drop_user(id).users).filter(with_role(role)).len()
                ==> (#[trigger] ordered(store.drop_user(id).users).filter(with_role(role))[i]).id
                != id,
{
    let left = store.drop_user(id).users;
    let found = ordered(left).filter(with_role(role));
    lemma_ordered_rows(left);
    assert forall|i: int| 0 <= i < found.len() implies (#[trigger] found[i]).id != id by {
        ordered(left).lemma_filter_contains_rev(with_role(role), found[i]);
        let j = choose|j: int| 0 <= j < ordered(left).len() && ordered(left)[j] == found[i];
        let key = choose|key: u64| left.contains_key(key) && ordered(left)[j] == left[key];
        assert(store.users.contains_key(key) && key != id);
    }
}

} // verus!
