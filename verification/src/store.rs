//! The store: one counter of identifiers and seven collections of rows, kept
//! in stable memory.

use crate::codec::{lemma_number_bytes_len, text_bytes, texts};
use crate::error::{invalid_input, not_found, Error};
use crate::listing::{lemma_filter_next, ordered, page_of, paginate};
use crate::model::{
    Event, LeaderboardData, LeaderboardEntry, Playlist, Rating, RequestStatus, SongRequest, Tip,
    TipStatus, User, UserRole, UserStatus,
};
use crate::record::Record;
use crate::request::{
    EventPayload, PlaylistPayload, RatingPayload, SongRequestPayload, TipPayload, UserPayload,
    TEXT_ROOM,
};
use crate::stable::{
    counter_get, counter_new, counter_open, counter_region, counter_set, counter_value,
    region_of, regions_open, table_new, table_open, table_region, table_rows, Counter, Table,
};
use crate::state::{
    by_dj, event_gone, for_event, named, no_playlists_by, no_playlists_for, rated, user_gone,
    with_role, StoreData,
};
use crate::table::{
    discard, exists_in, fetch, keep, keys_within, lemma_rows_belong, listing, rows_of, views,
};
use crate::text::{around_number, followed_by};
use vstd::prelude::*;

verus! {

/// The store. Each part lives in a region of memory of its own: the counter in
/// region 0, then users, song requests, tips, events, ratings, playlists and
/// the leaderboard in regions 1 to 7.
pub struct Store {
    counter: Counter,
    users: Table,
    song_requests: Table,
    tips: Table,
    events: Table,
    ratings: Table,
    playlists: Table,
    leaderboard: Table,
}

impl View for Store {
    type V = StoreData;

    closed spec fn view(&self) -> StoreData {
        StoreData {
            last_id: counter_value(self.counter),
            users: rows_of::<User>(table_rows(self.users)),
            song_requests: rows_of::<SongRequest>(table_rows(self.song_requests)),
            tips: rows_of::<Tip>(table_rows(self.tips)),
            events: rows_of::<Event>(table_rows(self.events)),
            ratings: rows_of::<Rating>(table_rows(self.ratings)),
            playlists: rows_of::<Playlist>(table_rows(self.playlists)),
            leaderboard: rows_of::<LeaderboardEntry>(table_rows(self.leaderboard)),
        }
    }
}

impl Store {
    /// A store that holds nothing, in the default memory. What the memory held
    /// before is overwritten.
    pub fn new() -> (store: Store)
        ensures
            store@ == StoreData::empty(),
            store.regions() == Store::layout(),
    {
        let regions = regions_open();
        let store = Store {
            counter: counter_new(region_of(&regions, 0), 0),
            users: table_new(region_of(&regions, 1)),
            song_requests: table_new(region_of(&regions, 2)),
            tips: table_new(region_of(&regions, 3)),
            events: table_new(region_of(&regions, 4)),
            ratings: table_new(region_of(&regions, 5)),
            playlists: table_new(region_of(&regions, 6)),
            leaderboard: table_new(region_of(&regions, 7)),
        };
        proof {
            assert(store@.users =~= Map::empty());
            assert(store@.song_requests =~= Map::empty());
            assert(store@.tips =~= Map::empty());
            assert(store@.events =~= Map::empty());
            assert(store@.ratings =~= Map::empty());
            assert(store@.playlists =~= Map::empty());
            assert(store@.leaderboard =~= Map::empty());
            assert(store.regions() =~= Store::layout());
        }
        store
    }

    /// The store that the default memory holds, as a process finds it when it
    /// starts again: each part is opened on its own region, the same at every
    /// start. What the parts hold depends on the memory alone.
    pub fn open() -> (store: Store)
        ensures
            store.regions() == Store::layout(),
            store@.keyed(),
    {
        let regions = regions_open();
        let store = Store {
            counter: counter_open(region_of(&regions, 0), 0),
            users: table_open(region_of(&regions, 1)),
            song_requests: table_open(region_of(&regions, 2)),
            tips: table_open(region_of(&regions, 3)),
            events: table_open(region_of(&regions, 4)),
            ratings: table_open(region_of(&regions, 5)),
            playlists: table_open(region_of(&regions, 6)),
            leaderboard: table_open(region_of(&regions, 7)),
        };
        proof {
            assert(store.regions() =~= Store::layout());
        }
        store
    }

    /// The regions of the memory that the parts of the store are built on: that
    /// of the counter first, then those of users, song requests, tips, events,
    /// ratings, playlists and the leaderboard.
    pub closed spec fn regions(&self) -> Seq<u8> {
        seq![
            counter_region(self.counter),
            table_region(self.users),
            table_region(self.song_requests),
            table_region(self.tips),
            table_region(self.events),
            table_region(self.ratings),
            table_region(self.playlists),
            table_region(self.leaderboard),
        ]
    }

    /// The regions that a store is built on, in the order of `regions`: 0 for
    /// the counter, 1 to 7 for the collections. What was kept is found again
    /// after a restart because each part is opened on the region that it was
    /// written to.
    pub open spec fn layout() -> Seq<u8> {
        seq![0u8, 1, 2, 3, 4, 5, 6, 7]
    }

    /// Whatever a store holds, each row of it is kept under its own identifier.
    pub proof fn lemma_keyed(&self)
        ensures
            self@.keyed(),
    {
    }

    /// Whether every row keyed by identifier has a key that was issued. It is
    /// so in a new store and stays so; of a store that was opened from memory
    /// it can be found out here.
    pub fn issued_only(&self) -> (b: bool)
        ensures
            b == self@.issued_only(),
    {
        let last = self.last_id();
        let users = keys_within::<User>(&self.users, last);
        let song_requests = keys_within::<SongRequest>(&self.song_requests, last);
        let tips = keys_within::<Tip>(&self.tips, last);
        let events = keys_within::<Event>(&self.events, last);
        let ratings = keys_within::<Rating>(&self.ratings, last);
        let playlists = keys_within::<Playlist>(&self.playlists, last);
        proof {
            assert(self@.users == rows_of::<User>(table_rows(self.users)));
            assert(self@.song_requests == rows_of::<SongRequest>(table_rows(self.song_requests)));
            assert(self@.tips == rows_of::<Tip>(table_rows(self.tips)));
            assert(self@.events == rows_of::<Event>(table_rows(self.events)));
            assert(self@.ratings == rows_of::<Rating>(table_rows(self.ratings)));
            assert(self@.playlists == rows_of::<Playlist>(table_rows(self.playlists)));
        }
        users && song_requests && tips && events && ratings && playlists
    }

    /// The last identifier that was issued, and 0 where none was.
    pub fn last_id(&self) -> (id: u64)
        ensures
            id == self@.last_id,
    {
        counter_get(&self.counter)
    }

    /// Issues the next identifier: one more than the last. The new count is
    /// in memory before the identifier is handed out.
    pub fn next_id(&mut self) -> (id: u64)
        requires
            old(self)@.last_id < u64::MAX,
        ensures
            id == old(self)@.next_id(),
            final(self)@ == (StoreData { last_id: id, ..old(self)@ }),
    {
        let id = counter_get(&self.counter) + 1;
        counter_set(&mut self.counter, id);
        id
    }

    /// Creates a user with no points, who is active.
    pub fn create_user(&mut self, payload: UserPayload, now: u64) -> (r: Result<User, Error>)
        requires
            old(self)@.refusal(payload.request()) is None ==> old(self)@.last_id < u64::MAX
                && payload.request().storable(),
        ensures
            final(self)@ == old(self)@.handle(payload.request(), now),
            match r {
                Ok(user) => old(self)@.issues(payload.request()) == Some(user.id)
                    && final(self)@.users[user.id] == user@,
                Err(e) => old(self)@.refusal(payload.request()) == Some(e@),
            },
    {
        if payload.name.as_str().is_empty() || payload.contact.as_str().is_empty() {
            return Err(
                Error::InvalidInput { msg: "Name and contact fields are required".to_owned() },
            );
        }
        let id = self.next_id();
        let user = User {
            id,
            name: payload.name,
            contact: payload.contact,
            created_at: now,
            status: UserStatus::Active,
            role: payload.role,
            points: 0,
        };
        proof {
            lemma_number_bytes_len();
        }
        keep::<User>(&mut self.users, id, &user);
        Ok(user)
    }

    /// Creates a pending request for a song by a user of the store.
    pub fn create_song_request(&mut self, payload: SongRequestPayload, now: u64) -> (r: Result<
        SongRequest,
        Error,
    >)
        requires
            old(self)@.refusal(payload.request()) is None ==> old(self)@.last_id < u64::MAX
                && payload.request().storable(),
        ensures
            final(self)@ == old(self)@.handle(payload.request(), now),
            match r {
                Ok(row) => old(self)@.issues(payload.request()) == Some(row.id)
                    && final(self)@.song_requests[row.id] == row@,
                Err(e) => old(self)@.refusal(payload.request()) == Some(e@),
            },
    {
        if payload.song_name.as_str().is_empty() {
            return Err(Error::InvalidInput { msg: "Invalid input fields".to_owned() });
        }
        if !exists_in::<User>(&self.users, payload.user_id) {
            return Err(Error::NotFound { msg: "User not found".to_owned() });
        }
        let id = self.next_id();
        let row = SongRequest {
            id,
            user_id: payload.user_id,
            song_name: payload.song_name,
            request_status: RequestStatus::Pending,
            created_at: now,
        };
        proof {
            lemma_number_bytes_len();
        }
        keep::<SongRequest>(&mut self.song_requests, id, &row);
        Ok(row)
    }

    /// Creates a pending tip from a user of the store to a DJ.
    pub fn create_tip(&mut self, payload: TipPayload, now: u64) -> (r: Result<Tip, Error>)
        requires
            old(self)@.refusal(payload.request()) is None ==> old(self)@.last_id < u64::MAX
                && payload.request().storable(),
        ensures
            final(self)@ == old(self)@.handle(payload.request(), now),
            match r {
                Ok(row) => old(self)@.issues(payload.request()) == Some(row.id)
                    && final(self)@.tips[row.id] == row@,
                Err(e) => old(self)@.refusal(payload.request()) == Some(e@),
            },
    {
        if payload.amount == 0 || payload.dj_name.as_str().is_empty() {
            return Err(Error::InvalidInput { msg: "Invalid input fields".to_owned() });
        }
        if !exists_in::<User>(&self.users, payload.user_id) {
            return Err(Error::NotFound { msg: "User not found".to_owned() });
        }
        let id = self.next_id();
        let row = Tip {
            id,
            user_id: payload.user_id,
            dj_name: payload.dj_name,
            amount: payload.amount,
            tip_status: TipStatus::Pending,
            created_at: now,
        };
        proof {
            lemma_number_bytes_len();
        }
        keep::<Tip>(&mut self.tips, id, &row);
        Ok(row)
    }

    /// Creates an event.
    pub fn create_event(&mut self, payload: EventPayload, now: u64) -> (r: Result<Event, Error>)
        requires
            old(self)@.refusal(payload.request()) is None ==> old(self)@.last_id < u64::MAX
                && payload.request().storable(),
        ensures
            final(self)@ == old(self)@.handle(payload.request(), now),
            match r {
                Ok(row) => old(self)@.issues(payload.request()) == Some(row.id)
                    && final(self)@.events[row.id] == row@,
                Err(e) => old(self)@.refusal(payload.request()) == Some(e@),
            },
    {
        if payload.event_name.as_str().is_empty() || payload.dj_name.as_str().is_empty()
            || payload.venue.as_str().is_empty() || payload.capacity == 0 {
            return Err(Error::InvalidInput { msg: "Invalid input fields".to_owned() });
        }
        let id = self.next_id();
        let row = Event {
            id,
            event_name: payload.event_name,
            dj_name: payload.dj_name,
            venue: payload.venue,
            capacity: payload.capacity,
            scheduled_at: payload.scheduled_at,
            created_at: now,
        };
        proof {
            lemma_number_bytes_len();
        }
        keep::<Event>(&mut self.events, id, &row);
        Ok(row)
    }

    /// Creates a rating of a DJ by a user of the store.
    pub fn create_rating(&mut self, payload: RatingPayload, now: u64) -> (r: Result<
        Rating,
        Error,
    >)
        requires
            old(self)@.refusal(payload.request()) is None ==> old(self)@.last_id < u64::MAX
                && payload.request().storable(),
        ensures
            final(self)@ == old(self)@.handle(payload.request(), now),
            match r {
                Ok(row) => old(self)@.issues(payload.request()) == Some(row.id)
                    && final(self)@.ratings[row.id] == row@,
                Err(e) => old(self)@.refusal(payload.request()) == Some(e@),
            },
    {
        if payload.dj_name.as_str().is_empty() || payload.rating > 5 {
            return Err(Error::InvalidInput { msg: "Invalid input fields".to_owned() });
        }
        if !exists_in::<User>(&self.users, payload.user_id) {
            return Err(Error::NotFound { msg: "User not found".to_owned() });
        }
        let id = self.next_id();
        let row = Rating {
            id,
            user_id: payload.user_id,
            dj_name: payload.dj_name,
            rating: payload.rating,
            review: payload.review,
            created_at: now,
        };
        proof {
            lemma_number_bytes_len();
        }
        keep::<Rating>(&mut self.ratings, id, &row);
        Ok(row)
    }

    /// Creates a playlist for an event of the store.
    pub fn create_playlist(&mut self, payload: PlaylistPayload, now: u64) -> (r: Result<
        Playlist,
        Error,
    >)
        requires
            old(self)@.refusal(payload.request()) is None ==> old(self)@.last_id < u64::MAX
                && payload.request().storable(),
        ensures
            final(self)@ == old(self)@.handle(payload.request(), now),
            match r {
                Ok(row) => old(self)@.issues(payload.request()) == Some(row.id)
                    && final(self)@.playlists[row.id] == row@,
                Err(e) => old(self)@.refusal(payload.request()) == Some(e@),
            },
    {
        if payload.dj_name.as_str().is_empty() && payload.song_list.len() == 0 {
            proof {
                assert(texts(payload.song_list@).len() == 0);
            }
            return Err(Error::InvalidInput { msg: "Invalid input fields".to_owned() });
        }
        if !exists_in::<Event>(&self.events, payload.event_id) {
            return Err(Error::NotFound { msg: "Event not found".to_owned() });
        }
        let id = self.next_id();
        let row = Playlist {
            id,
            dj_name: payload.dj_name,
            event_id: payload.event_id,
            song_list: payload.song_list,
            created_at: now,
        };
        proof {
            lemma_number_bytes_len();
        }
        keep::<Playlist>(&mut self.playlists, id, &row);
        Ok(row)
    }

    /// Deletes a user. Rows that refer to the user stay as they are.
    pub fn delete_user(&mut self, user_id: u64) -> (r: Result<(), Error>)
        ensures
            match r {
                Ok(_) => old(self)@.users.contains_key(user_id)
                    && final(self)@ == old(self)@.drop_user(user_id),
                Err(e) => !old(self)@.users.contains_key(user_id) && e@ == not_found(
                    user_gone(user_id),
                ) && final(self)@ == old(self)@,
            },
    {
        if discard::<User>(&mut self.users, user_id) {
            Ok(())
        } else {
            proof {
                assert(self@.users =~= old(self)@.users);
            }
            Err(Error::NotFound { msg: around_number("User with ID ", user_id, " not found") })
        }
    }

    /// Deletes an event. Playlists that refer to the event stay as they are.
    pub fn delete_event(&mut self, event_id: u64) -> (r: Result<(), Error>)
        ensures
            match r {
                Ok(_) => old(self)@.events.contains_key(event_id)
                    && final(self)@ == old(self)@.drop_event(event_id),
                Err(e) => !old(self)@.events.contains_key(event_id) && e@ == not_found(
                    event_gone(event_id),
                ) && final(self)@ == old(self)@,
            },
    {
        if discard::<Event>(&mut self.events, event_id) {
            Ok(())
        } else {
            proof {
                assert(self@.events =~= old(self)@.events);
            }
            Err(Error::NotFound { msg: around_number("Event with ID ", event_id, " not found") })
        }
    }

    /// Gives a user more points, and says whether there is such a user.
    pub fn update_user_points(&mut self, user_id: u64, points: u64) -> (done: bool)
        requires
            old(self)@.users.contains_key(user_id) ==> old(self)@.users[user_id].points + points
                <= u64::MAX,
        ensures
            done == old(self)@.users.contains_key(user_id),
            final(self)@ == if done {
                old(self)@.award(user_id, points)
            } else {
                old(self)@
            },
    {
        match fetch::<User>(&self.users, user_id) {
            Some(user) => {
                proof {
                    lemma_rows_belong::<User>(table_rows(self.users), user_id);
                }
                let ghost before = user@;
                let mut user = user;
                user.points = user.points + points;
                proof {
                    lemma_number_bytes_len();
                    assert(User::layout(user@).len() == User::layout(before).len());
                }
                keep::<User>(&mut self.users, user_id, &user);
                true
            },
            None => false,
        }
    }

    /// Puts a leaderboard row without ratings under `dj_id`, in place of the
    /// row that was there. Only a DJ with such a row can be rated.
    pub fn init_leaderboard_entry(&mut self, dj_id: u64, dj_name: String) -> (r: Result<
        LeaderboardEntry,
        Error,
    >)
        requires
            text_bytes(dj_name@).len() <= TEXT_ROOM,
        ensures
            match r {
                Ok(entry) => dj_name@.len() > 0 && entry@ == LeaderboardData::fresh(dj_name@)
                    && final(self)@ == old(self)@.enlist(dj_id, dj_name@),
                Err(e) => dj_name@.len() == 0 && e@ == invalid_input("Invalid input fields"@)
                    && final(self)@ == old(self)@,
            },
    {
        if dj_name.as_str().is_empty() {
            return Err(Error::InvalidInput { msg: "Invalid input fields".to_owned() });
        }
        let entry = LeaderboardEntry::new(dj_name);
        proof {
            lemma_number_bytes_len();
        }
        keep::<LeaderboardEntry>(&mut self.leaderboard, dj_id, &entry);
        Ok(entry)
    }

    /// Folds one more rating into the mean of a DJ on the leaderboard.
    pub fn update_leaderboard_after_rating(&mut self, dj_id: u64, new_rating: u8) -> (r: Result<
        (),
        Error,
    >)
        requires
            old(self)@.leaderboard.contains_key(dj_id) ==> old(self)@.leaderboard[dj_id].can_fold(
                new_rating,
            ),
        ensures
            match r {
                Ok(_) => old(self)@.leaderboard.contains_key(dj_id)
                    && final(self)@ == old(self)@.rate(dj_id, new_rating),
                Err(e) => !old(self)@.leaderboard.contains_key(dj_id) && e@ == not_found(
                    "DJ not found"@,
                ) && final(self)@ == old(self)@,
            },
    {
        match fetch::<LeaderboardEntry>(&self.leaderboard, dj_id) {
            Some(entry) => {
                let ghost before = entry@;
                let mut entry = entry;
                entry.fold_rating(new_rating);
                proof {
                    lemma_number_bytes_len();
                    assert(LeaderboardEntry::layout(entry@).len() == LeaderboardEntry::layout(
                        before,
                    ).len());
                }
                keep::<LeaderboardEntry>(&mut self.leaderboard, dj_id, &entry);
                Ok(())
            },
            None => Err(Error::NotFound { msg: "DJ not found".to_owned() }),
        }
    }

    /// The users with the given role, by ascending identifier.
    pub fn search_users_by_role(&self, role: UserRole) -> (out: Vec<User>)
        ensures
            views(out@) == ordered(self@.users).filter(with_role(role)),
    {
        let all = listing::<User>(&self.users);
        let ghost rows = views(all@);
        let mut out: Vec<User> = Vec::new();
        for row in it: all
            invariant
                it.seq() == all@,
                rows == views(all@),
                views(out@) == rows.take(it.index() as int).filter(with_role(role)),
        {
            let ghost before = views(out@);
            proof {
                lemma_filter_next(rows, it.index() as int, with_role(role));
            }
            if row.role == role {
                out.push(row);
                assert(views(out@) =~= before.push(row@));
            }
        }
        assert(rows.take(all@.len() as int) =~= rows);
        out
    }

    /// The DJs on the leaderboard whose mean rating is at least `rating`, by
    /// ascending DJ identifier. Genre and location are not looked at.
    pub fn search_djs(&self, _genre: String, rating: u8, _location: String) -> (out: Vec<
        LeaderboardEntry,
    >)
        ensures
            views(out@) == ordered(self@.leaderboard).filter(rated(rating)),
    {
        let all = listing::<LeaderboardEntry>(&self.leaderboard);
        let ghost rows = views(all@);
        let mut out: Vec<LeaderboardEntry> = Vec::new();
        for row in it: all
            invariant
                it.seq() == all@,
                rows == views(all@),
                views(out@) == rows.take(it.index() as int).filter(rated(rating)),
        {
            let ghost before = views(out@);
            proof {
                lemma_filter_next(rows, it.index() as int, rated(rating));
            }
            if row.rated_at_least(rating) {
                out.push(row);
                assert(views(out@) =~= before.push(row@));
            }
        }
        assert(rows.take(all@.len() as int) =~= rows);
        out
    }

    /// All events, by ascending identifier; an error where there is none.
    pub fn get_all_events(&self) -> (r: Result<Vec<Event>, Error>)
        ensures
            match r {
                Ok(events) => events@.len() > 0 && views(events@) == ordered(self@.events),
                Err(e) => ordered(self@.events).len() == 0 && e@ == not_found(
                    "No events found"@,
                ),
            },
    {
        let events = listing::<Event>(&self.events);
        if events.len() == 0 {
            Err(Error::NotFound { msg: "No events found".to_owned() })
        } else {
            Ok(events)
        }
    }

    /// One page of the events by ascending identifier; an error where there
    /// is no event at all. A page behind the last event is empty.
    pub fn get_paginated_events(&self, page: usize, per_page: usize) -> (r: Result<
        Vec<Event>,
        Error,
    >)
        ensures
            match r {
                Ok(events) => ordered(self@.events).len() > 0 && views(events@) == page_of(
                    ordered(self@.events),
                    page,
                    per_page,
                ),
                Err(e) => ordered(self@.events).len() == 0 && e@ == not_found(
                    "No events found"@,
                ),
            },
    {
        let events = listing::<Event>(&self.events);
        if events.len() == 0 {
            return Err(Error::NotFound { msg: "No events found".to_owned() });
        }
        let ghost all = views(events@);
        let out = paginate(events, page, per_page);
        assert(views(out@) =~= page_of(all, page, per_page));
        Ok(out)
    }

    /// The first event, by ascending identifier, with the given name.
    pub fn get_event_by_name(&self, event_name: String) -> (r: Result<Event, Error>)
        ensures
            match r {
                Ok(event) => ordered(self@.events).filter(named(event_name@)).len() > 0
                    && event@ == ordered(self@.events).filter(named(event_name@))[0],
                Err(e) => ordered(self@.events).filter(named(event_name@)).len() == 0 && e@
                    == not_found("Event not found"@),
            },
    {
        let all = listing::<Event>(&self.events);
        let ghost rows = views(all@);
        let mut found: Option<Event> = None;
        for row in it: all
            invariant
                it.seq() == all@,
                rows == views(all@),
                match found {
                    Some(event) => rows.take(it.index() as int).filter(named(event_name@)).len()
                        > 0 && event@ == rows.take(it.index() as int).filter(
                        named(event_name@),
                    )[0],
                    None => rows.take(it.index() as int).filter(named(event_name@)).len() == 0,
                },
        {
            proof {
                lemma_filter_next(rows, it.index() as int, named(event_name@));
            }
            if found.is_none() && row.event_name == event_name {
                found = Some(row);
            }
        }
        assert(rows.take(all@.len() as int) =~= rows);
        match found {
            Some(event) => Ok(event),
            None => Err(Error::NotFound { msg: "Event not found".to_owned() }),
        }
    }

    /// The playlists of a DJ, by ascending identifier; an error where there
    /// is none.
    pub fn get_playlist_by_dj_name(&self, dj_name: String) -> (r: Result<Vec<Playlist>, Error>)
        ensures
            match r {
                Ok(playlists) => playlists@.len() > 0 && views(playlists@) == ordered(
                    self@.playlists,
                ).filter(by_dj(dj_name@)),
                Err(e) => ordered(self@.playlists).filter(by_dj(dj_name@)).len() == 0 && e@
                    == not_found(no_playlists_by(dj_name@)),
            },
    {
        let all = listing::<Playlist>(&self.playlists);
        let ghost rows = views(all@);
        let mut out: Vec<Playlist> = Vec::new();
        for row in it: all
            invariant
                it.seq() == all@,
                rows == views(all@),
                views(out@) == rows.take(it.index() as int).filter(by_dj(dj_name@)),
        {
            let ghost before = views(out@);
            proof {
                lemma_filter_next(rows, it.index() as int, by_dj(dj_name@));
            }
            if row.dj_name == dj_name {
                out.push(row);
                assert(views(out@) =~= before.push(row@));
            }
        }
        assert(rows.take(all@.len() as int) =~= rows);
        if out.len() == 0 {
            Err(
                Error::NotFound {
                    msg: followed_by("No playlists found for DJ: ", dj_name.as_str()),
                },
            )
        } else {
            Ok(out)
        }
    }

    /// The playlists for an event, by ascending identifier; an error where
    /// there is none.
    pub fn get_playlist_by_event_id(&self, event_id: u64) -> (r: Result<Vec<Playlist>, Error>)
        ensures
            match r {
                Ok(playlists) => playlists@.len() > 0 && views(playlists@) == ordered(
                    self@.playlists,
                ).filter(for_event(event_id)),
                Err(e) => ordered(self@.playlists).filter(for_event(event_id)).len() == 0 && e@
                    == not_found(no_playlists_for(event_id)),
            },
    {
        let all = listing::<Playlist>(&self.playlists);
        let ghost rows = views(all@);
        let mut out: Vec<Playlist> = Vec::new();
        for row in it: all
            invariant
                it.seq() == all@,
                rows == views(all@),
                views(out@) == rows.take(it.index() as int).filter(for_event(event_id)),
        {
            let ghost before = views(out@);
            proof {
                lemma_filter_next(rows, it.index() as int, for_event(event_id));
            }
            if row.event_id == event_id {
                out.push(row);
                assert(views(out@) =~= before.push(row@));
            }
        }
        assert(rows.take(all@.len() as int) =~= rows);
        if out.len() == 0 {
            let msg = around_number("No playlists found for event ID: ", event_id, "");
            proof {
                reveal_strlit("");
                assert(msg@ =~= no_playlists_for(event_id));
            }
            Err(Error::NotFound { msg })
        } else {
            Ok(out)
        }
    }

    /// The user with the given identifier.
    pub fn get_user(&self, id: u64) -> (r: Option<User>)
        ensures
            match r {
                Some(row) => self@.users.contains_key(id) && self@.users[id] == row@,
                None => !self@.users.contains_key(id),
            },
    {
        fetch::<User>(&self.users, id)
    }

    /// The song request with the given identifier.
    pub fn get_song_request(&self, id: u64) -> (r: Option<SongRequest>)
        ensures
            match r {
                Some(row) => self@.song_requests.contains_key(id) && self@.song_requests[id]
                    == row@,
                None => !self@.song_requests.contains_key(id),
            },
    {
        fetch::<SongRequest>(&self.song_requests, id)
    }

    /// The tip with the given identifier.
    pub fn get_tip(&self, id: u64) -> (r: Option<Tip>)
        ensures
            match r {
                Some(row) => self@.tips.contains_key(id) && self@.tips[id] == row@,
                None => !self@.tips.contains_key(id),
            },
    {
        fetch::<Tip>(&self.tips, id)
    }

    /// The event with the given identifier.
    pub fn get_event(&self, id: u64) -> (r: Option<Event>)
        ensures
            match r {
                Some(row) => self@.events.contains_key(id) && self@.events[id] == row@,
                None => !self@.events.contains_key(id),
            },
    {
        fetch::<Event>(&self.events, id)
    }

    /// The rating with the given identifier.
    pub fn get_rating(&self, id: u64) -> (r: Option<Rating>)
        ensures
            match r {
                Some(row) => self@.ratings.contains_key(id) && self@.ratings[id] == row@,
                None => !self@.ratings.contains_key(id),
            },
    {
        fetch::<Rating>(&self.ratings, id)
    }

    /// The playlist with the given identifier.
    pub fn get_playlist(&self, id: u64) -> (r: Option<Playlist>)
        ensures
            match r {
                Some(row) => self@.playlists.contains_key(id) && self@.playlists[id] == row@,
                None => !self@.playlists.contains_key(id),
            },
    {
        fetch::<Playlist>(&self.playlists, id)
    }

    /// The leaderboard row of the given DJ.
    pub fn get_leaderboard_entry(&self, dj_id: u64) -> (r: Option<LeaderboardEntry>)
        ensures
            match r {
                Some(row) => self@.leaderboard.contains_key(dj_id) && self@.leaderboard[dj_id]
                    == row@,
                None => !self@.leaderboard.contains_key(dj_id),
            },
    {
        fetch::<LeaderboardEntry>(&self.leaderboard, dj_id)
    }
}

} // verus!
