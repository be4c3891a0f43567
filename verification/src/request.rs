//! The requests that create rows: what comes in, and what contracts say of it.

use crate::codec::{list_bytes, room_after_list, room_after_text, text_bytes, texts};
use crate::model::UserRole;
use vstd::prelude::*;

verus! {

/// A request to create a row.
pub enum Request {
    User { name: Seq<char>, contact: Seq<char>, role: UserRole },
    SongRequest { user_id: u64, song_name: Seq<char> },
    Tip { user_id: u64, dj_name: Seq<char>, amount: u64 },
    Event {
        event_name: Seq<char>,
        dj_name: Seq<char>,
        venue: Seq<char>,
        capacity: u64,
        scheduled_at: u64,
    },
    Rating { user_id: u64, dj_name: Seq<char>, rating: u8, review: Seq<char> },
    Playlist { dj_name: Seq<char>, event_id: u64, song_list: Seq<Seq<char>> },
}

/// The six kinds of rows that a request creates.
#[derive(PartialEq, Eq, Structural)]
pub enum Kind {
    User,
    SongRequest,
    Tip,
    Event,
    Rating,
    Playlist,
}

/// The most bytes that the texts of a request may take when written, so that
/// the row made of them and of its numbers can be kept.
pub const TEXT_ROOM: u64 = 0xffff_ff00;

/// The greatest rating.
pub open spec fn top_rating() -> u8 {
    5
}

impl Request {
    /// The kind of row that the request creates.
    pub open spec fn kind(self) -> Kind {
        match self {
            Request::User { .. } => Kind::User,
            Request::SongRequest { .. } => Kind::SongRequest,
            Request::Tip { .. } => Kind::Tip,
            Request::Event { .. } => Kind::Event,
            Request::Rating { .. } => Kind::Rating,
            Request::Playlist { .. } => Kind::Playlist,
        }
    }

    /// The fields of the request are as they must be: the required ones are
    /// there, and the numbers are in their ranges.
    pub open spec fn well_formed(self) -> bool {
        match self {
            Request::User { name, contact, .. } => name.len() > 0 && contact.len() > 0,
            Request::SongRequest { song_name, .. } => song_name.len() > 0,
            Request::Tip { dj_name, amount, .. } => amount > 0 && dj_name.len() > 0,
            Request::Event { event_name, dj_name, venue, capacity, .. } => event_name.len() > 0
                && dj_name.len() > 0 && venue.len() > 0 && capacity > 0,
            Request::Rating { dj_name, rating, .. } => dj_name.len() > 0 && rating <= top_rating(),
            Request::Playlist { dj_name, song_list, .. } => !(dj_name.len() == 0 && song_list.len()
                == 0),
        }
    }

    /// The user that the request refers to, where it refers to one.
    pub open spec fn user(self) -> Option<u64> {
        match self {
            Request::SongRequest { user_id, .. } => Some(user_id),
            Request::Tip { user_id, .. } => Some(user_id),
            Request::Rating { user_id, .. } => Some(user_id),
            _ => None,
        }
    }

    /// The event that the request refers to, where it refers to one.
    pub open spec fn event(self) -> Option<u64> {
        match self {
            Request::Playlist { event_id, .. } => Some(event_id),
            _ => None,
        }
    }

    /// The bytes that the texts of the request take when written.
    pub open spec fn text_size(self) -> nat {
        match self {
            Request::User { name, contact, .. } => text_bytes(name).len() + text_bytes(
                contact,
            ).len(),
            Request::SongRequest { song_name, .. } => text_bytes(song_name).len(),
            Request::Tip { dj_name, .. } => text_bytes(dj_name).len(),
            Request::Event { event_name, dj_name, venue, .. } => text_bytes(event_name).len()
                + text_bytes(dj_name).len() + text_bytes(venue).len(),
            Request::Rating { dj_name, review, .. } => text_bytes(dj_name).len() + text_bytes(
                review,
            ).len(),
            Request::Playlist { dj_name, song_list, .. } => text_bytes(dj_name).len()
                + list_bytes(song_list).len(),
        }
    }

    /// The row that the request asks for can be kept.
    pub open spec fn storable(self) -> bool {
        self.text_size() <= TEXT_ROOM
    }

    /// The message of the error for a request that is not well formed.
    pub open spec fn complaint(self) -> Seq<char> {
        match self {
            Request::User { .. } => "Name and contact fields are required"@,
            _ => "Invalid input fields"@,
        }
    }
}

/// What `create_user` takes.
#[derive(Debug, PartialEq, Eq)]
pub struct UserPayload {
    pub name: String,
    pub contact: String,
    pub role: UserRole,
}

impl UserPayload {
    /// The request that this payload makes.
    pub open spec fn request(&self) -> Request {
        Request::User { name: self.name@, contact: self.contact@, role: self.role }
    }

    /// Whether the row that this payload asks for can be kept.
    pub fn storable(&self) -> (b: bool)
        ensures
            b == self.request().storable(),
    {
        let room = TEXT_ROOM;
        let room = match room_after_text(self.name.as_str(), room) {
            Some(left) => left,
            None => {
                return false;
            },
        };
        room_after_text(self.contact.as_str(), room).is_some()
    }
}

impl Clone for UserPayload {
    fn clone(&self) -> (copy: Self)
        ensures
            copy.request() == self.request(),
    {
        UserPayload {
            name: self.name.clone(),
            contact: self.contact.clone(),
            role: self.role,
        }
    }
}

/// What `create_song_request` takes.
#[derive(Debug, PartialEq, Eq)]
pub struct SongRequestPayload {
    pub user_id: u64,
    pub song_name: String,
}

impl SongRequestPayload {
    /// The request that this payload makes.
    pub open spec fn request(&self) -> Request {
        Request::SongRequest { user_id: self.user_id, song_name: self.song_name@ }
    }

    /// Whether the row that this payload asks for can be kept.
    pub fn storable(&self) -> (b: bool)
        ensures
            b == self.request().storable(),
    {
        let room = TEXT_ROOM;
        room_after_text(self.song_name.as_str(), room).is_some()
    }
}

impl Clone for SongRequestPayload {
    fn clone(&self) -> (copy: Self)
        ensures
            copy.request() == self.request(),
    {
        SongRequestPayload {
            user_id: self.user_id,
            song_name: self.song_name.clone(),
        }
    }
}

/// What `create_tip` takes.
#[derive(Debug, PartialEq, Eq)]
pub struct TipPayload {
    pub user_id: u64,
    pub dj_name: String,
    pub amount: u64,
}

impl TipPayload {
    /// The request that this payload makes.
    pub open spec fn request(&self) -> Request {
        Request::Tip { user_id: self.user_id, dj_name: self.dj_name@, amount: self.amount }
    }

    /// Whether the row that this payload asks for can be kept.
    pub fn storable(&self) -> (b: bool)
        ensures
            b == self.request().storable(),
    {
        let room = TEXT_ROOM;
        room_after_text(self.dj_name.as_str(), room).is_some()
    }
}

impl Clone for TipPayload {
    fn clone(&self) -> (copy: Self)
        ensures
            copy.request() == self.request(),
    {
        TipPayload {
            user_id: self.user_id,
            dj_name: self.dj_name.clone(),
            amount: self.amount,
        }
    }
}

/// What `create_rating` takes.
#[derive(Debug, PartialEq, Eq)]
pub struct RatingPayload {
    pub user_id: u64,
    pub dj_name: String,
    pub rating: u8,
    pub review: String,
}

impl RatingPayload {
    /// The request that this payload makes.
    pub open spec fn request(&self) -> Request {
        Request::Rating {
            user_id: self.user_id,
            dj_name: self.dj_name@,
            rating: self.rating,
            review: self.review@,
        }
    }

    /// Whether the row that this payload asks for can be kept.
    pub fn storable(&self) -> (b: bool)
        ensures
            b == self.request().storable(),
    {
        let room = TEXT_ROOM;
        let room = match room_after_text(self.dj_name.as_str(), room) {
            Some(left) => left,
            None => {
                return false;
            },
        };
        room_after_text(self.review.as_str(), room).is_some()
    }
}

impl Clone for RatingPayload {
    fn clone(&self) -> (copy: Self)
        ensures
            copy.request() == self.request(),
    {
        RatingPayload {
            user_id: self.user_id,
            dj_name: self.dj_name.clone(),
            rating: self.rating,
            review: self.review.clone(),
        }
    }
}

/// What `create_event` takes.
#[derive(Debug, PartialEq, Eq)]
pub struct EventPayload {
    pub event_name: String,
    pub dj_name: String,
    pub venue: String,
    pub capacity: u64,
    pub scheduled_at: u64,
}

impl EventPayload {
    /// The request that this payload makes.
    pub open spec fn request(&self) -> Request {
        Request::Event {
            event_name: self.event_name@,
            dj_name: self.dj_name@,
            venue: self.venue@,
            capacity: self.capacity,
            scheduled_at: self.scheduled_at,
        }
    }

    /// Whether the row that this payload asks for can be kept.
    pub fn storable(&self) -> (b: bool)
        ensures
            b == self.request().storable(),
    {
        let room = TEXT_ROOM;
        let room = match room_after_text(self.event_name.as_str(), room) {
            Some(left) => left,
            None => {
                return false;
            },
        };
        let room = match room_after_text(self.dj_name.as_str(), room) {
            Some(left) => left,
            None => {
                return false;
            },
        };
        room_after_text(self.venue.as_str(), room).is_some()
    }
}

impl Clone for EventPayload {
    fn clone(&self) -> (copy: Self)
        ensures
            copy.request() == self.request(),
    {
        EventPayload {
            event_name: self.event_name.clone(),
            dj_name: self.dj_name.clone(),
            venue: self.venue.clone(),
            capacity: self.capacity,
            scheduled_at: self.scheduled_at,
        }
    }
}

/// What `create_playlist` takes.
#[derive(Debug, PartialEq, Eq)]
pub struct PlaylistPayload {
    pub dj_name: String,
    pub event_id: u64,
    pub song_list: Vec<String>,
}

impl PlaylistPayload {
    /// The request that this payload makes.
    pub open spec fn request(&self) -> Request {
        Request::Playlist {
            dj_name: self.dj_name@,
            event_id: self.event_id,
            song_list: texts(self.song_list@),
        }
    }

    /// Whether the row that this payload asks for can be kept.
    pub fn storable(&self) -> (b: bool)
        ensures
            b == self.request().storable(),
    {
        let room = TEXT_ROOM;
        let room = match room_after_text(self.dj_name.as_str(), room) {
            Some(left) => left,
            None => {
                return false;
            },
        };
        room_after_list(&self.song_list, room).is_some()
    }
}

impl Clone for PlaylistPayload {
    fn clone(&self) -> (copy: Self)
        ensures
            copy.request() == self.request(),
    {
        PlaylistPayload {
            dj_name: self.dj_name.clone(),
            event_id: self.event_id,
            song_list: self.song_list.clone(),
        }
    }
}

} // verus!
