//! The rows of the store, and what contracts say of each: a row's view holds
//! the characters of its texts.

use crate::codec::texts;
use vstd::prelude::*;

verus! {

/// Whether a requested song was played yet.
#[derive(Clone, Copy, PartialEq, Eq, Structural, Debug, Hash)]
pub enum RequestStatus {
    Pending,
    Played,
}

/// Whether a tip was paid out yet.
#[derive(Clone, Copy, PartialEq, Eq, Structural, Debug, Hash)]
pub enum TipStatus {
    Pending,
    Completed,
}

/// Whether a user may still act.
#[derive(Clone, Copy, PartialEq, Eq, Structural, Debug, Hash)]
pub enum UserStatus {
    Active,
    Deactivated,
}

/// What a user is. The store keeps the role and enforces nothing by it.
#[derive(Clone, Copy, PartialEq, Eq, Structural, Debug, Hash)]
pub enum UserRole {
    RegularUser,
    Admin,
    DJ,
}

impl Default for RequestStatus {
    fn default() -> (r: Self)
        ensures
            r == RequestStatus::Pending,
    {
        RequestStatus::Pending
    }
}

impl Default for TipStatus {
    fn default() -> (r: Self)
        ensures
            r == TipStatus::Pending,
    {
        TipStatus::Pending
    }
}

impl Default for UserStatus {
    fn default() -> (r: Self)
        ensures
            r == UserStatus::Active,
    {
        UserStatus::Active
    }
}

impl Default for UserRole {
    fn default() -> (r: Self)
        ensures
            r == UserRole::RegularUser,
    {
        UserRole::RegularUser
    }
}

/// A person who uses the application.
#[derive(Debug, PartialEq, Eq)]
pub struct User {
    pub id: u64,
    pub name: String,
    pub contact: String,
    pub created_at: u64,
    pub status: UserStatus,
    pub role: UserRole,
    pub points: u64,
}

/// A song that a user asked for.
#[derive(Debug, PartialEq, Eq)]
pub struct SongRequest {
    pub id: u64,
    pub user_id: u64,
    pub song_name: String,
    pub request_status: RequestStatus,
    pub created_at: u64,
}

/// Money that a user gave to a DJ.
#[derive(Debug, PartialEq, Eq)]
pub struct Tip {
    pub id: u64,
    pub user_id: u64,
    pub dj_name: String,
    pub amount: u64,
    pub tip_status: TipStatus,
    pub created_at: u64,
}

/// A night at a venue.
#[derive(Debug, PartialEq, Eq)]
pub struct Event {
    pub id: u64,
    pub event_name: String,
    pub dj_name: String,
    pub venue: String,
    pub capacity: u64,
    pub scheduled_at: u64,
    pub created_at: u64,
}

/// The songs that a DJ plans for an event, in order.
#[derive(Debug, PartialEq, Eq)]
pub struct Playlist {
    pub id: u64,
    pub dj_name: String,
    pub event_id: u64,
    pub song_list: Vec<String>,
    pub created_at: u64,
}

/// What a user thought of a DJ, from 0 to 5.
#[derive(Debug, PartialEq, Eq)]
pub struct Rating {
    pub id: u64,
    pub user_id: u64,
    pub dj_name: String,
    pub rating: u8,
    pub review: String,
    pub created_at: u64,
}

/// A DJ's standing. The mean rating is kept exactly, as the sum of the ratings
/// folded in and their number.
#[derive(Debug, PartialEq, Eq)]
pub struct LeaderboardEntry {
    pub dj_name: String,
    pub total_tips: u64,
    pub total_ratings: u64,
    pub rating_sum: u64,
}

/// A user as contracts speak of it.
pub struct UserData {
    pub id: u64,
    pub name: Seq<char>,
    pub contact: Seq<char>,
    pub created_at: u64,
    pub status: UserStatus,
    pub role: UserRole,
    pub points: u64,
}

/// A song request as contracts speak of it.
pub struct SongRequestData {
    pub id: u64,
    pub user_id: u64,
    pub song_name: Seq<char>,
    pub request_status: RequestStatus,
    pub created_at: u64,
}

/// A tip as contracts speak of it.
pub struct TipData {
    pub id: u64,
    pub user_id: u64,
    pub dj_name: Seq<char>,
    pub amount: u64,
    pub tip_status: TipStatus,
    pub created_at: u64,
}

/// An event as contracts speak of it.
pub struct EventData {
    pub id: u64,
    pub event_name: Seq<char>,
    pub dj_name: Seq<char>,
    pub venue: Seq<char>,
    pub capacity: u64,
    pub scheduled_at: u64,
    pub created_at: u64,
}

/// A playlist as contracts speak of it.
pub struct PlaylistData {
    pub id: u64,
    pub dj_name: Seq<char>,
    pub event_id: u64,
    pub song_list: Seq<Seq<char>>,
    pub created_at: u64,
}

/// A rating as contracts speak of it.
pub struct RatingData {
    pub id: u64,
    pub user_id: u64,
    pub dj_name: Seq<char>,
    pub rating: u8,
    pub review: Seq<char>,
    pub created_at: u64,
}

/// A leaderboard row as contracts speak of it. The mean rating is
/// `rating_sum / total_ratings`, and 0 where nothing was rated.
pub struct LeaderboardData {
    pub dj_name: Seq<char>,
    pub total_tips: u64,
    pub total_ratings: u64,
    pub rating_sum: u64,
}

impl View for User {
    type V = UserData;

    open spec fn view(&self) -> UserData {
        UserData {
            id: self.id,
            name: self.name@,
            contact: self.contact@,
            created_at: self.created_at,
            status: self.status,
            role: self.role,
            points: self.points,
        }
    }
}

impl View for SongRequest {
    type V = SongRequestData;

    open spec fn view(&self) -> SongRequestData {
        SongRequestData {
            id: self.id,
            user_id: self.user_id,
            song_name: self.song_name@,
            request_status: self.request_status,
            created_at: self.created_at,
        }
    }
}

impl View for Tip {
    type V = TipData;

    open spec fn view(&self) -> TipData {
        TipData {
            id: self.id,
            user_id: self.user_id,
            dj_name: self.dj_name@,
            amount: self.amount,
            tip_status: self.tip_status,
            created_at: self.created_at,
        }
    }
}

impl View for Event {
    type V = EventData;

    open spec fn view(&self) -> EventData {
        EventData {
            id: self.id,
            event_name: self.event_name@,
            dj_name: self.dj_name@,
            venue: self.venue@,
            capacity: self.capacity,
            scheduled_at: self.scheduled_at,
            created_at: self.created_at,
        }
    }
}

impl View for Playlist {
    type V = PlaylistData;

    open spec fn view(&self) -> PlaylistData {
        PlaylistData {
            id: self.id,
            dj_name: self.dj_name@,
            event_id: self.event_id,
            song_list: texts(self.song_list@),
            created_at: self.created_at,
        }
    }
}

impl View for Rating {
    type V = RatingData;

    open spec fn view(&self) -> RatingData {
        RatingData {
            id: self.id,
            user_id: self.user_id,
            dj_name: self.dj_name@,
            rating: self.rating,
            review: self.review@,
            created_at: self.created_at,
        }
    }
}

impl View for LeaderboardEntry {
    type V = LeaderboardData;

    open spec fn view(&self) -> LeaderboardData {
        LeaderboardData {
            dj_name: self.dj_name@,
            total_tips: self.total_tips,
            total_ratings: self.total_ratings,
            rating_sum: self.rating_sum,
        }
    }
}

impl Clone for User {
    fn clone(&self) -> (copy: Self)
        ensures
            copy@ == self@,
    {
        User {
            id: self.id,
            name: self.name.clone(),
            contact: self.contact.clone(),
            created_at: self.created_at,
            status: self.status,
            role: self.role,
            points: self.points,
        }
    }
}

impl Clone for SongRequest {
    fn clone(&self) -> (copy: Self)
        ensures
            copy@ == self@,
    {
        SongRequest {
            id: self.id,
            user_id: self.user_id,
            song_name: self.song_name.clone(),
            request_status: self.request_status,
            created_at: self.created_at,
        }
    }
}

impl Clone for Tip {
    fn clone(&self) -> (copy: Self)
        ensures
            copy@ == self@,
    {
        Tip {
            id: self.id,
            user_id: self.user_id,
            dj_name: self.dj_name.clone(),
            amount: self.amount,
            tip_status: self.tip_status,
            created_at: self.created_at,
        }
    }
}

impl Clone for Event {
    fn clone(&self) -> (copy: Self)
        ensures
            copy@ == self@,
    {
        Event {
            id: self.id,
            event_name: self.event_name.clone(),
            dj_name: self.dj_name.clone(),
            venue: self.venue.clone(),
            capacity: self.capacity,
            scheduled_at: self.scheduled_at,
            created_at: self.created_at,
        }
    }
}

impl Clone for Playlist {
    fn clone(&self) -> (copy: Self)
        ensures
            copy@ == self@,
    {
        Playlist {
            id: self.id,
            dj_name: self.dj_name.clone(),
            event_id: self.event_id,
            song_list: self.song_list.clone(),
            created_at: self.created_at,
        }
    }
}

impl Clone for Rating {
    fn clone(&self) -> (copy: Self)
        ensures
            copy@ == self@,
    {
        Rating {
            id: self.id,
            user_id: self.user_id,
            dj_name: self.dj_name.clone(),
            rating: self.rating,
            review: self.review.clone(),
            created_at: self.created_at,
        }
    }
}

impl Clone for LeaderboardEntry {
    fn clone(&self) -> (copy: Self)
        ensures
            copy@ == self@,
    {
        LeaderboardEntry {
            dj_name: self.dj_name.clone(),
            total_tips: self.total_tips,
            total_ratings: self.total_ratings,
            rating_sum: self.rating_sum,
        }
    }
}

} // verus!
