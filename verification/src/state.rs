//! What the store holds, as contracts speak of it, and what each request does
//! to it.

use crate::error::{invalid_input, not_found, ErrorData};
use crate::model::{
    EventData, LeaderboardData, PlaylistData, RatingData, RequestStatus, SongRequestData,
    TipData, TipStatus, UserData, UserRole, UserStatus,
};
use crate::request::{top_rating, Kind, Request};
use crate::text::decimal;
use vstd::prelude::*;

verus! {

/// The last identifier that was issued and the seven collections. Six are
/// keyed by the identifiers of their rows, the leaderboard by DJ.
pub struct StoreData {
    pub last_id: u64,
    pub users: Map<u64, UserData>,
    pub song_requests: Map<u64, SongRequestData>,
    pub tips: Map<u64, TipData>,
    pub events: Map<u64, EventData>,
    pub ratings: Map<u64, RatingData>,
    pub playlists: Map<u64, PlaylistData>,
    pub leaderboard: Map<u64, LeaderboardData>,
}

impl StoreData {
    /// The row that the request refers to is there. A request that refers to
    /// none has nothing to miss.
    pub open spec fn resolves(self, req: Request) -> bool {
        &&& req.user() is Some ==> self.users.contains_key(req.user().unwrap())
        &&& req.event() is Some ==> self.events.contains_key(req.event().unwrap())
    }

    /// The message of the error for a request that refers to a missing row.
    pub open spec fn missing(req: Request) -> Seq<char> {
        if req.event() is Some {
            "Event not found"@
        } else {
            "User not found"@
        }
    }

    /// Why the request is refused, or nothing where it is accepted. The fields
    /// are looked at first, the row referred to second.
    pub open spec fn refusal(self, req: Request) -> Option<ErrorData> {
        if !req.well_formed() {
            Some(invalid_input(req.complaint()))
        } else if !self.resolves(req) {
            Some(not_found(Self::missing(req)))
        } else {
            None
        }
    }

    /// The identifier that the next accepted request gets.
    pub open spec fn next_id(self) -> u64 {
        (self.last_id + 1) as u64
    }

    /// The store after `req` was accepted at time `now`: the next identifier
    /// is issued, and one row with it stands in the collection of its kind.
    pub open spec fn accept(self, req: Request, now: u64) -> StoreData {
        let id = self.next_id();
        match req {
            Request::User { name, contact, role } => StoreData {
                last_id: id,
                users: self.users.insert(
                    id,
                    UserData {
                        id,
                        name,
                        contact,
                        created_at: now,
                        status: UserStatus::Active,
                        role,
                        points: 0,
                    },
                ),
                ..self
            },
            Request::SongRequest { user_id, song_name } => StoreData {
                last_id: id,
                song_requests: self.song_requests.insert(
                    id,
                    SongRequestData {
                        id,
                        user_id,
                        song_name,
                        request_status: RequestStatus::Pending,
                        created_at: now,
                    },
                ),
                ..self
            },
            Request::Tip { user_id, dj_name, amount } => StoreData {
                last_id: id,
                tips: self.tips.insert(
                    id,
                    TipData {
                        id,
                        user_id,
                        dj_name,
                        amount,
                        tip_status: TipStatus::Pending,
                        created_at: now,
                    },
                ),
                ..self
            },
            Request::Event { event_name, dj_name, venue, capacity, scheduled_at } => StoreData {
                last_id: id,
                events: self.events.insert(
                    id,
                    EventData {
                        id,
                        event_name,
                        dj_name,
                        venue,
                        capacity,
                        scheduled_at,
                        created_at: now,
                    },
                ),
                ..self
            },
            Request::Rating { user_id, dj_name, rating, review } => StoreData {
                last_id: id,
                ratings: self.ratings.insert(
                    id,
                    RatingData { id, user_id, dj_name, rating, review, created_at: now },
                ),
                ..self
            },
            Request::Playlist { dj_name, event_id, song_list } => StoreData {
                last_id: id,
                playlists: self.playlists.insert(
                    id,
                    PlaylistData { id, dj_name, event_id, song_list, created_at: now },
                ),
                ..self
            },
        }
    }

    /// The store after `req` was handled at time `now`, accepted or not.
    pub open spec fn handle(self, req: Request, now: u64) -> StoreData {
        if self.refusal(req) is None {
            self.accept(req, now)
        } else {
            self
        }
    }

    /// The identifier that handling `req` returns, where the request is accepted.
    pub open spec fn issues(self, req: Request) -> Option<u64> {
        if self.refusal(req) is None {
            Some(self.next_id())
        } else {
            None
        }
    }

    /// The keys of the collection of a kind.
    pub open spec fn keys(self, kind: Kind) -> Set<u64> {
        match kind {
            Kind::User => self.users.dom(),
            Kind::SongRequest => self.song_requests.dom(),
            Kind::Tip => self.tips.dom(),
            Kind::Event => self.events.dom(),
            Kind::Rating => self.ratings.dom(),
            Kind::Playlist => self.playlists.dom(),
        }
    }

    /// No row of the six collections keyed by identifier has a key that was
    /// not issued yet.
    pub open spec fn issued_only(self) -> bool {
        &&& forall|key: u64| self.users.contains_key(key) ==> key <= self.last_id
        &&& forall|key: u64| self.song_requests.contains_key(key) ==> key <= self.last_id
        &&& forall|key: u64| self.tips.contains_key(key) ==> key <= self.last_id
        &&& forall|key: u64| self.events.contains_key(key) ==> key <= self.last_id
        &&& forall|key: u64| self.ratings.contains_key(key) ==> key <= self.last_id
        &&& forall|key: u64| self.playlists.contains_key(key) ==> key <= self.last_id
    }

    /// Every row of the six collections keyed by identifier holds its key as
    /// its identifier.
    pub open spec fn keyed(self) -> bool {
        &&& forall|key: u64| self.users.contains_key(key) ==> self.users[key].id == key
        &&& forall|key: u64|
            self.song_requests.contains_key(key) ==> self.song_requests[key].id == key
        &&& forall|key: u64| self.tips.contains_key(key) ==> self.tips[key].id == key
        &&& forall|key: u64| self.events.contains_key(key) ==> self.events[key].id == key
        &&& forall|key: u64| self.ratings.contains_key(key) ==> self.ratings[key].id == key
        &&& forall|key: u64| self.playlists.contains_key(key) ==> self.playlists[key].id == key
    }

    /// Every tip is of more than nothing, and every rating within its range.
    pub open spec fn in_range(self) -> bool {
        &&& forall|key: u64| self.tips.contains_key(key) ==> self.tips[key].amount > 0
        &&& forall|key: u64|
            self.ratings.contains_key(key) ==> self.ratings[key].rating <= top_rating()
    }

    /// The store without the user `id`. Rows that refer to the user stay.
    pub open spec fn drop_user(self, id: u64) -> StoreData {
        StoreData { users: self.users.remove(id), ..self }
    }

    /// The store without the event `id`. Playlists that refer to the event stay.
    pub open spec fn drop_event(self, id: u64) -> StoreData {
        StoreData { events: self.events.remove(id), ..self }
    }

    /// The store after the user `id` was given `points` more points.
    pub open spec fn award(self, id: u64, points: u64) -> StoreData
        recommends
            self.users.contains_key(id),
    {
        let user = self.users[id];
        StoreData {
            users: self.users.insert(
                id,
                UserData { points: (user.points + points) as u64, ..user },
            ),
            ..self
        }
    }

    /// The store after a leaderboard row without ratings was put under `dj_id`,
    /// in place of the row that was there.
    pub open spec fn enlist(self, dj_id: u64, dj_name: Seq<char>) -> StoreData {
        StoreData {
            leaderboard: self.leaderboard.insert(dj_id, LeaderboardData::fresh(dj_name)),
            ..self
        }
    }

    /// The store after `rating` was folded into the leaderboard row of `dj_id`.
    pub open spec fn rate(self, dj_id: u64, rating: u8) -> StoreData
        recommends
            self.leaderboard.contains_key(dj_id),
    {
        StoreData {
            leaderboard: self.leaderboard.insert(dj_id, self.leaderboard[dj_id].fold(rating)),
            ..self
        }
    }

    /// The store after the ratings were folded into the leaderboard row of
    /// `dj_id`, one after the other.
    pub open spec fn rate_all(self, dj_id: u64, ratings: Seq<u8>) -> StoreData
        decreases ratings.len(),
    {
        if ratings.len() == 0 {
            self
        } else {
            self.rate_all(dj_id, ratings.drop_last()).rate(dj_id, ratings.last())
        }
    }

    /// A store that holds nothing and has issued no identifier.
    pub open spec fn empty() -> StoreData {
        StoreData {
            last_id: 0,
            users: Map::empty(),
            song_requests: Map::empty(),
            tips: Map::empty(),
            events: Map::empty(),
            ratings: Map::empty(),
            playlists: Map::empty(),
            leaderboard: Map::empty(),
        }
    }
}

/// The users with the given role.
pub open spec fn with_role(role: UserRole) -> spec_fn(UserData) -> bool {
    |user: UserData| user.role == role
}

/// The events with the given name.
pub open spec fn named(event_name: Seq<char>) -> spec_fn(EventData) -> bool {
    |event: EventData| event.event_name == event_name
}

/// The playlists of the given DJ.
pub open spec fn by_dj(dj_name: Seq<char>) -> spec_fn(PlaylistData) -> bool {
    |playlist: PlaylistData| playlist.dj_name == dj_name
}

/// The playlists for the given event.
pub open spec fn for_event(event_id: u64) -> spec_fn(PlaylistData) -> bool {
    |playlist: PlaylistData| playlist.event_id == event_id
}

/// The DJs whose mean rating is at least `least`.
pub open spec fn rated(least: u8) -> spec_fn(LeaderboardData) -> bool {
    |entry: LeaderboardData| entry.rated_at_least(least)
}

/// The message for a user that cannot be deleted because there is none.
pub open spec fn user_gone(id: u64) -> Seq<char> {
    "User with ID "@ + decimal(id as nat) + " not found"@
}

/// The message for an event that cannot be deleted because there is none.
pub open spec fn event_gone(id: u64) -> Seq<char> {
    "Event with ID "@ + decimal(id as nat) + " not found"@
}

/// The message for a DJ without playlists.
pub open spec fn no_playlists_by(dj_name: Seq<char>) -> Seq<char> {
    "No playlists found for DJ: "@ + dj_name
}

/// The message for an event without playlists.
pub open spec fn no_playlists_for(event_id: u64) -> Seq<char> {
    "No playlists found for event ID: "@ + decimal(event_id as nat)
}

} // verus!
