//! How each kind of row is written to bytes and read back.
//!
//! A row is its fields one after the other, in the order of the struct. A
//! status or a role is one byte.

use crate::codec::{
    lemma_byte_taken, lemma_list_taken, lemma_number_taken, lemma_take_byte, lemma_take_list,
    lemma_take_number, lemma_take_text, lemma_text_taken, list_bytes, number_bytes, read_byte,
    read_list, read_number, read_text, take_byte, take_list, take_number, take_text,
    text_bytes, text_fits, texts_fit, write_byte, write_list, write_number, write_text,
};
use crate::model::{
    Event, EventData, LeaderboardData, LeaderboardEntry, Playlist, PlaylistData, Rating,
    RatingData, RequestStatus, SongRequest, SongRequestData, Tip, TipData, TipStatus, User,
    UserData, UserRole, UserStatus,
};
use vstd::prelude::*;

verus! {

/// A kind of row that can be kept as bytes.
pub trait Record: View + Sized {
    /// The bytes that stand for a row: its fields one after the other.
    spec fn layout(row: Self::V) -> Seq<u8>;

    /// The row that `bytes` stand for, where they stand for one.
    spec fn parse(bytes: Seq<u8>) -> Option<Self::V>;

    /// A row all of whose texts can be written.
    spec fn fits(row: Self::V) -> bool;

    /// The key that a row names as its own, where this kind of row names one.
    spec fn own_key(row: Self::V) -> Option<u64>;

    /// The key that this row names as its own.
    fn key(&self) -> (k: Option<u64>)
        ensures
            k == Self::own_key(self@),
    ;

    /// Writes a row.
    fn encode(&self) -> (bytes: Vec<u8>)
        ensures
            bytes@ == Self::layout(self@),
            Self::fits(self@),
    ;

    /// Reads a row, or nothing where `bytes` are no row of this kind.
    fn decode(bytes: &[u8]) -> (r: Option<Self>)
        ensures
            match r {
                Some(row) => Self::parse(bytes@) == Some(row@),
                None => Self::parse(bytes@) is None,
            },
    ;

    /// What was written is read back.
    proof fn lemma_parse_layout(row: Self::V)
        requires
            Self::fits(row),
        ensures
            Self::parse(Self::layout(row)) == Some(row),
    ;

    /// What is read as a row was written from it: a row has one way to be
    /// written.
    proof fn lemma_layout_parse(bytes: Seq<u8>)
        requires
            Self::parse(bytes) is Some,
        ensures
            Self::layout(Self::parse(bytes).unwrap()) == bytes,
            Self::fits(Self::parse(bytes).unwrap()),
    ;
}

/// The bytes behind a field that was read, and none where reading failed.
pub open spec fn after<T>(field: Option<(T, Seq<u8>)>) -> Seq<u8> {
    match field {
        Some((_, rest)) => rest,
        None => Seq::empty(),
    }
}

/// The value of a field that was read.
pub open spec fn got<T>(field: Option<(T, Seq<u8>)>) -> T
    recommends
        field is Some,
{
    field.unwrap().0
}

/// The byte that stands for a user's status.
pub open spec fn user_status_code(v: UserStatus) -> u8 {
    match v {
        UserStatus::Active => 0,
        UserStatus::Deactivated => 1,
    }
}

/// What a byte stands for as a user's status.
pub open spec fn user_status_of(code: u8) -> Option<UserStatus> {
    if code == 0 {
        Some(UserStatus::Active)
    } else if code == 1 {
        Some(UserStatus::Deactivated)
    } else {
        None
    }
}

fn user_status_byte(v: UserStatus) -> (code: u8)
    ensures
        code == user_status_code(v),
{
    match v {
        UserStatus::Active => 0,
        UserStatus::Deactivated => 1,
    }
}

fn user_status_from(code: u8) -> (v: Option<UserStatus>)
    ensures
        v == user_status_of(code),
{
    if code == 0 {
        Some(UserStatus::Active)
    } else if code == 1 {
        Some(UserStatus::Deactivated)
    } else {
        None
    }
}

/// The byte that stands for a user's role.
pub open spec fn user_role_code(v: UserRole) -> u8 {
    match v {
        UserRole::RegularUser => 0,
        UserRole::Admin => 1,
        UserRole::DJ => 2,
    }
}

/// What a byte stands for as a user's role.
pub open spec fn user_role_of(code: u8) -> Option<UserRole> {
    if code == 0 {
        Some(UserRole::RegularUser)
    } else if code == 1 {
        Some(UserRole::Admin)
    } else if code == 2 {
        Some(UserRole::DJ)
    } else {
        None
    }
}

fn user_role_byte(v: UserRole) -> (code: u8)
    ensures
        code == user_role_code(v),
{
    match v {
        UserRole::RegularUser => 0,
        UserRole::Admin => 1,
        UserRole::DJ => 2,
    }
}

fn user_role_from(code: u8) -> (v: Option<UserRole>)
    ensures
        v == user_role_of(code),
{
    if code == 0 {
        Some(UserRole::RegularUser)
    } else if code == 1 {
        Some(UserRole::Admin)
    } else if code == 2 {
        Some(UserRole::DJ)
    } else {
        None
    }
}

/// The byte that stands for the status of a song request.
pub open spec fn request_status_code(v: RequestStatus) -> u8 {
    match v {
        RequestStatus::Pending => 0,
        RequestStatus::Played => 1,
    }
}

/// What a byte stands for as the status of a song request.
pub open spec fn request_status_of(code: u8) -> Option<RequestStatus> {
    if code == 0 {
        Some(RequestStatus::Pending)
    } else if code == 1 {
        Some(RequestStatus::Played)
    } else {
        None
    }
}

fn request_status_byte(v: RequestStatus) -> (code: u8)
    ensures
        code == request_status_code(v),
{
    match v {
        RequestStatus::Pending => 0,
        RequestStatus::Played => 1,
    }
}

fn request_status_from(code: u8) -> (v: Option<RequestStatus>)
    ensures
        v == request_status_of(code),
{
    if code == 0 {
        Some(RequestStatus::Pending)
    } else if code == 1 {
        Some(RequestStatus::Played)
    } else {
        None
    }
}

/// The byte that stands for the status of a tip.
pub open spec fn tip_status_code(v: TipStatus) -> u8 {
    match v {
        TipStatus::Pending => 0,
        TipStatus::Completed => 1,
    }
}

/// What a byte stands for as the status of a tip.
pub open spec fn tip_status_of(code: u8) -> Option<TipStatus> {
    if code == 0 {
        Some(TipStatus::Pending)
    } else if code == 1 {
        Some(TipStatus::Completed)
    } else {
        None
    }
}

fn tip_status_byte(v: TipStatus) -> (code: u8)
    ensures
        code == tip_status_code(v),
{
    match v {
        TipStatus::Pending => 0,
        TipStatus::Completed => 1,
    }
}

fn tip_status_from(code: u8) -> (v: Option<TipStatus>)
    ensures
        v == tip_status_of(code),
{
    if code == 0 {
        Some(TipStatus::Pending)
    } else if code == 1 {
        Some(TipStatus::Completed)
    } else {
        None
    }
}

impl Record for User {
    open spec fn layout(row: UserData) -> Seq<u8> {
        number_bytes(row.id) + (
        text_bytes(row.name) + (
        text_bytes(row.contact) + (
        number_bytes(row.created_at) + (
        seq![user_status_code(row.status)] + (
        seq![user_role_code(row.role)] + (
        number_bytes(row.points)))))))
    }

    open spec fn parse(bytes: Seq<u8>) -> Option<UserData> {
        let id = take_number(bytes);
        let name = take_text(after(id));
        let contact = take_text(after(name));
        let created_at = take_number(after(contact));
        let status = take_byte(after(created_at));
        let role = take_byte(after(status));
        let points = take_number(after(role));
        if id is Some
            && name is Some
            && contact is Some
            && created_at is Some
            && status is Some
            && role is Some
            && points is Some
            && after(points).len() == 0
            && user_status_of(got(status)) is Some
            && user_role_of(got(role)) is Some
        {
            Some(
                UserData {
                    id: got(id),
                    name: got(name),
                    contact: got(contact),
                    created_at: got(created_at),
                    status: user_status_of(got(status)).unwrap(),
                    role: user_role_of(got(role)).unwrap(),
                    points: got(points),
                },
            )
        } else {
            None
        }
    }

    open spec fn fits(row: UserData) -> bool {
        text_fits(row.name) && text_fits(row.contact)
    }

    open spec fn own_key(row: UserData) -> Option<u64> {
        Some(row.id)
    }

    fn key(&self) -> (k: Option<u64>) {
        Some(self.id)
    }

    fn encode(&self) -> (bytes: Vec<u8>) {
        let mut out: Vec<u8> = Vec::new();
        write_number(&mut out, self.id);
        write_text(&mut out, self.name.as_str());
        write_text(&mut out, self.contact.as_str());
        write_number(&mut out, self.created_at);
        write_byte(&mut out, user_status_byte(self.status));
        write_byte(&mut out, user_role_byte(self.role));
        write_number(&mut out, self.points);
        assert(out@ =~= Self::layout(self@));
        out
    }

    fn decode(bytes: &[u8]) -> (r: Option<Self>) {
        assert(bytes@.skip(0) =~= bytes@);
        let (id, at) = read_number(bytes, 0)?;
        let (name, at) = read_text(bytes, at)?;
        let (contact, at) = read_text(bytes, at)?;
        let (created_at, at) = read_number(bytes, at)?;
        let (status, at) = read_byte(bytes, at)?;
        let (role, at) = read_byte(bytes, at)?;
        let (points, at) = read_number(bytes, at)?;
        if at != bytes.len() {
            return None;
        }
        let status = user_status_from(status)?;
        let role = user_role_from(role)?;
        Some(User { id, name, contact, created_at, status, role, points })
    }

    proof fn lemma_parse_layout(row: UserData) {
        let r7 = Seq::<u8>::empty();
        let r6 = number_bytes(row.points) + r7;
        let r5 = seq![user_role_code(row.role)] + r6;
        let r4 = seq![user_status_code(row.status)] + r5;
        let r3 = number_bytes(row.created_at) + r4;
        let r2 = text_bytes(row.contact) + r3;
        let r1 = text_bytes(row.name) + r2;
        lemma_take_number(row.id, r1);
        lemma_take_text(row.name, r2);
        lemma_take_text(row.contact, r3);
        lemma_take_number(row.created_at, r4);
        lemma_take_byte(user_status_code(row.status), r5);
        lemma_take_byte(user_role_code(row.role), r6);
        lemma_take_number(row.points, r7);
        assert(Self::layout(row) =~= number_bytes(row.id) + r1);
    }

    proof fn lemma_layout_parse(bytes: Seq<u8>) {
        let id = take_number(bytes);
        lemma_number_taken(bytes);
        let name = take_text(after(id));
        lemma_text_taken(after(id));
        let contact = take_text(after(name));
        lemma_text_taken(after(name));
        let created_at = take_number(after(contact));
        lemma_number_taken(after(contact));
        let status = take_byte(after(created_at));
        lemma_byte_taken(after(created_at));
        let role = take_byte(after(status));
        lemma_byte_taken(after(status));
        let points = take_number(after(role));
        lemma_number_taken(after(role));
        assert(after(points) =~= Seq::<u8>::empty());
        assert(Self::layout(Self::parse(bytes).unwrap()) =~= bytes);
    }
}

impl Record for SongRequest {
    open spec fn layout(row: SongRequestData) -> Seq<u8> {
        number_bytes(row.id) + (
        number_bytes(row.user_id) + (
        text_bytes(row.song_name) + (
        seq![request_status_code(row.request_status)] + (
        number_bytes(row.created_at)))))
    }

    open spec fn parse(bytes: Seq<u8>) -> Option<SongRequestData> {
        let id = take_number(bytes);
        let user_id = take_number(after(id));
        let song_name = take_text(after(user_id));
        let request_status = take_byte(after(song_name));
        let created_at = take_number(after(request_status));
        if id is Some
            && user_id is Some
            && song_name is Some
            && request_status is Some
            && created_at is Some
            && after(created_at).len() == 0
            && request_status_of(got(request_status)) is Some
        {
            Some(
                SongRequestData {
                    id: got(id),
                    user_id: got(user_id),
                    song_name: got(song_name),
                    request_status: request_status_of(got(request_status)).unwrap(),
                    created_at: got(created_at),
                },
            )
        } else {
            None
        }
    }

    open spec fn fits(row: SongRequestData) -> bool {
        text_fits(row.song_name)
    }

    open spec fn own_key(row: SongRequestData) -> Option<u64> {
        Some(row.id)
    }

    fn key(&self) -> (k: Option<u64>) {
        Some(self.id)
    }

    fn encode(&self) -> (bytes: Vec<u8>) {
        let mut out: Vec<u8> = Vec::new();
        write_number(&mut out, self.id);
        write_number(&mut out, self.user_id);
        write_text(&mut out, self.song_name.as_str());
        write_byte(&mut out, request_status_byte(self.request_status));
        write_number(&mut out, self.created_at);
        assert(out@ =~= Self::layout(self@));
        out
    }

    fn decode(bytes: &[u8]) -> (r: Option<Self>) {
        assert(bytes@.skip(0) =~= bytes@);
        let (id, at) = read_number(bytes, 0)?;
        let (user_id, at) = read_number(bytes, at)?;
        let (song_name, at) = read_text(bytes, at)?;
        let (request_status, at) = read_byte(bytes, at)?;
        let (created_at, at) = read_number(bytes, at)?;
        if at != bytes.len() {
            return None;
        }
        let request_status = request_status_from(request_status)?;
        Some(SongRequest { id, user_id, song_name, request_status, created_at })
    }

    proof fn lemma_parse_layout(row: SongRequestData) {
        let r5 = Seq::<u8>::empty();
        let r4 = number_bytes(row.created_at) + r5;
        let r3 = seq![request_status_code(row.request_status)] + r4;
        let r2 = text_bytes(row.song_name) + r3;
        let r1 = number_bytes(row.user_id) + r2;
        lemma_take_number(row.id, r1);
        lemma_take_number(row.user_id, r2);
        lemma_take_text(row.song_name, r3);
        lemma_take_byte(request_status_code(row.request_status), r4);
        lemma_take_number(row.created_at, r5);
        assert(Self::layout(row) =~= number_bytes(row.id) + r1);
    }

    proof fn lemma_layout_parse(bytes: Seq<u8>) {
        let id = take_number(bytes);
        lemma_number_taken(bytes);
        let user_id = take_number(after(id));
        lemma_number_taken(after(id));
        let song_name = take_text(after(user_id));
        lemma_text_taken(after(user_id));
        let request_status = take_byte(after(song_name));
        lemma_byte_taken(after(song_name));
        let created_at = take_number(after(request_status));
        lemma_number_taken(after(request_status));
        assert(after(created_at) =~= Seq::<u8>::empty());
        assert(Self::layout(Self::parse(bytes).unwrap()) =~= bytes);
    }
}

impl Record for Tip {
    open spec fn layout(row: TipData) -> Seq<u8> {
        number_bytes(row.id) + (
        number_bytes(row.user_id) + (
        text_bytes(row.dj_name) + (
        number_bytes(row.amount) + (
        seq![tip_status_code(row.tip_status)] + (
        number_bytes(row.created_at))))))
    }

    open spec fn parse(bytes: Seq<u8>) -> Option<TipData> {
        let id = take_number(bytes);
        let user_id = take_number(after(id));
        let dj_name = take_text(after(user_id));
        let amount = take_number(after(dj_name));
        let tip_status = take_byte(after(amount));
        let created_at = take_number(after(tip_status));
        if id is Some
            && user_id is Some
            && dj_name is Some
            && amount is Some
            && tip_status is Some
            && created_at is Some
            && after(created_at).len() == 0
            && tip_status_of(got(tip_status)) is Some
        {
            Some(
                TipData {
                    id: got(id),
                    user_id: got(user_id),
                    dj_name: got(dj_name),
                    amount: got(amount),
                    tip_status: tip_status_of(got(tip_status)).unwrap(),
                    created_at: got(created_at),
                },
            )
        } else {
            None
        }
    }

    open spec fn fits(row: TipData) -> bool {
        text_fits(row.dj_name)
    }

    open spec fn own_key(row: TipData) -> Option<u64> {
        Some(row.id)
    }

    fn key(&self) -> (k: Option<u64>) {
        Some(self.id)
    }

    fn encode(&self) -> (bytes: Vec<u8>) {
        let mut out: Vec<u8> = Vec::new();
        write_number(&mut out, self.id);
        write_number(&mut out, self.user_id);
        write_text(&mut out, self.dj_name.as_str());
        write_number(&mut out, self.amount);
        write_byte(&mut out, tip_status_byte(self.tip_status));
        write_number(&mut out, self.created_at);
        assert(out@ =~= Self::layout(self@));
        out
    }

    fn decode(bytes: &[u8]) -> (r: Option<Self>) {
        assert(bytes@.skip(0) =~= bytes@);
        let (id, at) = read_number(bytes, 0)?;
        let (user_id, at) = read_number(bytes, at)?;
        let (dj_name, at) = read_text(bytes, at)?;
        let (amount, at) = read_number(bytes, at)?;
        let (tip_status, at) = read_byte(bytes, at)?;
        let (created_at, at) = read_number(bytes, at)?;
        if at != bytes.len() {
            return None;
        }
        let tip_status = tip_status_from(tip_status)?;
        Some(Tip { id, user_id, dj_name, amount, tip_status, created_at })
    }

    proof fn lemma_parse_layout(row: TipData) {
        let r6 = Seq::<u8>::empty();
        let r5 = number_bytes(row.created_at) + r6;
        let r4 = seq![tip_status_code(row.tip_status)] + r5;
        let r3 = number_bytes(row.amount) + r4;
        let r2 = text_bytes(row.dj_name) + r3;
        let r1 = number_bytes(row.user_id) + r2;
        lemma_take_number(row.id, r1);
        lemma_take_number(row.user_id, r2);
        lemma_take_text(row.dj_name, r3);
        lemma_take_number(row.amount, r4);
        lemma_take_byte(tip_status_code(row.tip_status), r5);
        lemma_take_number(row.created_at, r6);
        assert(Self::layout(row) =~= number_bytes(row.id) + r1);
    }

    proof fn lemma_layout_parse(bytes: Seq<u8>) {
        let id = take_number(bytes);
        lemma_number_taken(bytes);
        let user_id = take_number(after(id));
        lemma_number_taken(after(id));
        let dj_name = take_text(after(user_id));
        lemma_text_taken(after(user_id));
        let amount = take_number(after(dj_name));
        lemma_number_taken(after(dj_name));
        let tip_status = take_byte(after(amount));
        lemma_byte_taken(after(amount));
        let created_at = take_number(after(tip_status));
        lemma_number_taken(after(tip_status));
        assert(after(created_at) =~= Seq::<u8>::empty());
        assert(Self::layout(Self::parse(bytes).unwrap()) =~= bytes);
    }
}

impl Record for Event {
    open spec fn layout(row: EventData) -> Seq<u8> {
        number_bytes(row.id) + (
        text_bytes(row.event_name) + (
        text_bytes(row.dj_name) + (
        text_bytes(row.venue) + (
        number_bytes(row.capacity) + (
        number_bytes(row.scheduled_at) + (
        number_bytes(row.created_at)))))))
    }

    open spec fn parse(bytes: Seq<u8>) -> Option<EventData> {
        let id = take_number(bytes);
        let event_name = take_text(after(id));
        let dj_name = take_text(after(event_name));
        let venue = take_text(after(dj_name));
        let capacity = take_number(after(venue));
        let scheduled_at = take_number(after(capacity));
        let created_at = take_number(after(scheduled_at));
        if id is Some
            && event_name is Some
            && dj_name is Some
            && venue is Some
            && capacity is Some
            && scheduled_at is Some
            && created_at is Some
            && after(created_at).len() == 0
        {
            Some(
                EventData {
                    id: got(id),
                    event_name: got(event_name),
                    dj_name: got(dj_name),
                    venue: got(venue),
                    capacity: got(capacity),
                    scheduled_at: got(scheduled_at),
                    created_at: got(created_at),
                },
            )
        } else {
            None
        }
    }

    open spec fn fits(row: EventData) -> bool {
        text_fits(row.event_name) && text_fits(row.dj_name) && text_fits(row.venue)
    }

    open spec fn own_key(row: EventData) -> Option<u64> {
        Some(row.id)
    }

    fn key(&self) -> (k: Option<u64>) {
        Some(self.id)
    }

    fn encode(&self) -> (bytes: Vec<u8>) {
        let mut out: Vec<u8> = Vec::new();
        write_number(&mut out, self.id);
        write_text(&mut out, self.event_name.as_str());
        write_text(&mut out, self.dj_name.as_str());
        write_text(&mut out, self.venue.as_str());
        write_number(&mut out, self.capacity);
        write_number(&mut out, self.scheduled_at);
        write_number(&mut out, self.created_at);
        assert(out@ =~= Self::layout(self@));
        out
    }

    fn decode(bytes: &[u8]) -> (r: Option<Self>) {
        assert(bytes@.skip(0) =~= bytes@);
        let (id, at) = read_number(bytes, 0)?;
        let (event_name, at) = read_text(bytes, at)?;
        let (dj_name, at) = read_text(bytes, at)?;
        let (venue, at) = read_text(bytes, at)?;
        let (capacity, at) = read_number(bytes, at)?;
        let (scheduled_at, at) = read_number(bytes, at)?;
        let (created_at, at) = read_number(bytes, at)?;
        if at != bytes.len() {
            return None;
        }
        Some(Event { id, event_name, dj_name, venue, capacity, scheduled_at, created_at })
    }

    proof fn lemma_parse_layout(row: EventData) {
        let r7 = Seq::<u8>::empty();
        let r6 = number_bytes(row.created_at) + r7;
        let r5 = number_bytes(row.scheduled_at) + r6;
        let r4 = number_bytes(row.capacity) + r5;
        let r3 = text_bytes(row.venue) + r4;
        let r2 = text_bytes(row.dj_name) + r3;
        let r1 = text_bytes(row.event_name) + r2;
        lemma_take_number(row.id, r1);
        lemma_take_text(row.event_name, r2);
        lemma_take_text(row.dj_name, r3);
        lemma_take_text(row.venue, r4);
        lemma_take_number(row.capacity, r5);
        lemma_take_number(row.scheduled_at, r6);
        lemma_take_number(row.created_at, r7);
        assert(Self::layout(row) =~= number_bytes(row.id) + r1);
    }

    proof fn lemma_layout_parse(bytes: Seq<u8>) {
        let id = take_number(bytes);
        lemma_number_taken(bytes);
        let event_name = take_text(after(id));
        lemma_text_taken(after(id));
        let dj_name = take_text(after(event_name));
        lemma_text_taken(after(event_name));
        let venue = take_text(after(dj_name));
        lemma_text_taken(after(dj_name));
        let capacity = take_number(after(venue));
        lemma_number_taken(after(venue));
        let scheduled_at = take_number(after(capacity));
        lemma_number_taken(after(capacity));
        let created_at = take_number(after(scheduled_at));
        lemma_number_taken(after(scheduled_at));
        assert(after(created_at) =~= Seq::<u8>::empty());
        assert(Self::layout(Self::parse(bytes).unwrap()) =~= bytes);
    }
}

impl Record for Rating {
    open spec fn layout(row: RatingData) -> Seq<u8> {
        number_bytes(row.id) + (
        number_bytes(row.user_id) + (
        text_bytes(row.dj_name) + (
        seq![row.rating] + (
        text_bytes(row.review) + (
        number_bytes(row.created_at))))))
    }

    open spec fn parse(bytes: Seq<u8>) -> Option<RatingData> {
        let id = take_number(bytes);
        let user_id = take_number(after(id));
        let dj_name = take_text(after(user_id));
        let rating = take_byte(after(dj_name));
        let review = take_text(after(rating));
        let created_at = take_number(after(review));
        if id is Some
            && user_id is Some
            && dj_name is Some
            && rating is Some
            && review is Some
            && created_at is Some
            && after(created_at).len() == 0
        {
            Some(
                RatingData {
                    id: got(id),
                    user_id: got(user_id),
                    dj_name: got(dj_name),
                    rating: got(rating),
                    review: got(review),
                    created_at: got(created_at),
                },
            )
        } else {
            None
        }
    }

    open spec fn fits(row: RatingData) -> bool {
        text_fits(row.dj_name) && text_fits(row.review)
    }

    open spec fn own_key(row: RatingData) -> Option<u64> {
        Some(row.id)
    }

    fn key(&self) -> (k: Option<u64>) {
        Some(self.id)
    }

    fn encode(&self) -> (bytes: Vec<u8>) {
        let mut out: Vec<u8> = Vec::new();
        write_number(&mut out, self.id);
        write_number(&mut out, self.user_id);
        write_text(&mut out, self.dj_name.as_str());
        write_byte(&mut out, self.rating);
        write_text(&mut out, self.review.as_str());
        write_number(&mut out, self.created_at);
        assert(out@ =~= Self::layout(self@));
        out
    }

    fn decode(bytes: &[u8]) -> (r: Option<Self>) {
        assert(bytes@.skip(0) =~= bytes@);
        let (id, at) = read_number(bytes, 0)?;
        let (user_id, at) = read_number(bytes, at)?;
        let (dj_name, at) = read_text(bytes, at)?;
        let (rating, at) = read_byte(bytes, at)?;
        let (review, at) = read_text(bytes, at)?;
        let (created_at, at) = read_number(bytes, at)?;
        if at != bytes.len() {
            return None;
        }
        Some(Rating { id, user_id, dj_name, rating, review, created_at })
    }

    proof fn lemma_parse_layout(row: RatingData) {
        let r6 = Seq::<u8>::empty();
        let r5 = number_bytes(row.created_at) + r6;
        let r4 = text_bytes(row.review) + r5;
        let r3 = seq![row.rating] + r4;
        let r2 = text_bytes(row.dj_name) + r3;
        let r1 = number_bytes(row.user_id) + r2;
        lemma_take_number(row.id, r1);
        lemma_take_number(row.user_id, r2);
        lemma_take_text(row.dj_name, r3);
        lemma_take_byte(row.rating, r4);
        lemma_take_text(row.review, r5);
        lemma_take_number(row.created_at, r6);
        assert(Self::layout(row) =~= number_bytes(row.id) + r1);
    }

    proof fn lemma_layout_parse(bytes: Seq<u8>) {
        let id = take_number(bytes);
        lemma_number_taken(bytes);
        let user_id = take_number(after(id));
        lemma_number_taken(after(id));
        let dj_name = take_text(after(user_id));
        lemma_text_taken(after(user_id));
        let rating = take_byte(after(dj_name));
        lemma_byte_taken(after(dj_name));
        let review = take_text(after(rating));
        lemma_text_taken(after(rating));
        let created_at = take_number(after(review));
        lemma_number_taken(after(review));
        assert(after(created_at) =~= Seq::<u8>::empty());
        assert(Self::layout(Self::parse(bytes).unwrap()) =~= bytes);
    }
}

impl Record for Playlist {
    open spec fn layout(row: PlaylistData) -> Seq<u8> {
        number_bytes(row.id) + (
        text_bytes(row.dj_name) + (
        number_bytes(row.event_id) + (
        list_bytes(row.song_list) + (
        number_bytes(row.created_at)))))
    }

    open spec fn parse(bytes: Seq<u8>) -> Option<PlaylistData> {
        let id = take_number(bytes);
        let dj_name = take_text(after(id));
        let event_id = take_number(after(dj_name));
        let song_list = take_list(after(event_id));
        let created_at = take_number(after(song_list));
        if id is Some
            && dj_name is Some
            && event_id is Some
            && song_list is Some
            && created_at is Some
            && after(created_at).len() == 0
        {
            Some(
                PlaylistData {
                    id: got(id),
                    dj_name: got(dj_name),
                    event_id: got(event_id),
                    song_list: got(song_list),
                    created_at: got(created_at),
                },
            )
        } else {
            None
        }
    }

    open spec fn fits(row: PlaylistData) -> bool {
        text_fits(row.dj_name) && texts_fit(row.song_list) && row.song_list.len() <= u64::MAX
    }

    open spec fn own_key(row: PlaylistData) -> Option<u64> {
        Some(row.id)
    }

    fn key(&self) -> (k: Option<u64>) {
        Some(self.id)
    }

    fn encode(&self) -> (bytes: Vec<u8>) {
        let mut out: Vec<u8> = Vec::new();
        write_number(&mut out, self.id);
        write_text(&mut out, self.dj_name.as_str());
        write_number(&mut out, self.event_id);
        write_list(&mut out, &self.song_list);
        write_number(&mut out, self.created_at);
        assert(out@ =~= Self::layout(self@));
        out
    }

    fn decode(bytes: &[u8]) -> (r: Option<Self>) {
        assert(bytes@.skip(0) =~= bytes@);
        let (id, at) = read_number(bytes, 0)?;
        let (dj_name, at) = read_text(bytes, at)?;
        let (event_id, at) = read_number(bytes, at)?;
        let (song_list, at) = read_list(bytes, at)?;
        let (created_at, at) = read_number(bytes, at)?;
        if at != bytes.len() {
            return None;
        }
        Some(Playlist { id, dj_name, event_id, song_list, created_at })
    }

    proof fn lemma_parse_layout(row: PlaylistData) {
        let r5 = Seq::<u8>::empty();
        let r4 = number_bytes(row.created_at) + r5;
        let r3 = list_bytes(row.song_list) + r4;
        let r2 = number_bytes(row.event_id) + r3;
        let r1 = text_bytes(row.dj_name) + r2;
        lemma_take_number(row.id, r1);
        lemma_take_text(row.dj_name, r2);
        lemma_take_number(row.event_id, r3);
        lemma_take_list(row.song_list, r4);
        lemma_take_number(row.created_at, r5);
        assert(Self::layout(row) =~= number_bytes(row.id) + r1);
    }

    proof fn lemma_layout_parse(bytes: Seq<u8>) {
        let id = take_number(bytes);
        lemma_number_taken(bytes);
        let dj_name = take_text(after(id));
        lemma_text_taken(after(id));
        let event_id = take_number(after(dj_name));
        lemma_number_taken(after(dj_name));
        let song_list = take_list(after(event_id));
        lemma_list_taken(after(event_id));
        let created_at = take_number(after(song_list));
        lemma_number_taken(after(song_list));
        assert(after(created_at) =~= Seq::<u8>::empty());
        assert(Self::layout(Self::parse(bytes).unwrap()) =~= bytes);
    }
}

impl Record for LeaderboardEntry {
    open spec fn layout(row: LeaderboardData) -> Seq<u8> {
        text_bytes(row.dj_name) + (
        number_bytes(row.total_tips) + (
        number_bytes(row.total_ratings) + (
        number_bytes(row.rating_sum))))
    }

    open spec fn parse(bytes: Seq<u8>) -> Option<LeaderboardData> {
        let dj_name = take_text(bytes);
        let total_tips = take_number(after(dj_name));
        let total_ratings = take_number(after(total_tips));
        let rating_sum = take_number(after(total_ratings));
        if dj_name is Some
            && total_tips is Some
            && total_ratings is Some
            && rating_sum is Some
            && after(rating_sum).len() == 0
        {
            Some(
                LeaderboardData {
                    dj_name: got(dj_name),
                    total_tips: got(total_tips),
                    total_ratings: got(total_ratings),
                    rating_sum: got(rating_sum),
                },
            )
        } else {
            None
        }
    }

    open spec fn fits(row: LeaderboardData) -> bool {
        text_fits(row.dj_name)
    }

    open spec fn own_key(row: LeaderboardData) -> Option<u64> {
        None
    }

    fn key(&self) -> (k: Option<u64>) {
        None
    }

    fn encode(&self) -> (bytes: Vec<u8>) {
        let mut out: Vec<u8> = Vec::new();
        write_text(&mut out, self.dj_name.as_str());
        write_number(&mut out, self.total_tips);
        write_number(&mut out, self.total_ratings);
        write_number(&mut out, self.rating_sum);
        assert(out@ =~= Self::layout(self@));
        out
    }

    fn decode(bytes: &[u8]) -> (r: Option<Self>) {
        assert(bytes@.skip(0) =~= bytes@);
        let (dj_name, at) = read_text(bytes, 0)?;
        let (total_tips, at) = read_number(bytes, at)?;
        let (total_ratings, at) = read_number(bytes, at)?;
        let (rating_sum, at) = read_number(bytes, at)?;
        if at != bytes.len() {
            return None;
        }
        Some(LeaderboardEntry { dj_name, total_tips, total_ratings, rating_sum })
    }

    proof fn lemma_parse_layout(row: LeaderboardData) {
        let r4 = Seq::<u8>::empty();
        let r3 = number_bytes(row.rating_sum) + r4;
        let r2 = number_bytes(row.total_ratings) + r3;
        let r1 = number_bytes(row.total_tips) + r2;
        lemma_take_text(row.dj_name, r1);
        lemma_take_number(row.total_tips, r2);
        lemma_take_number(row.total_ratings, r3);
        lemma_take_number(row.rating_sum, r4);
        assert(Self::layout(row) =~= text_bytes(row.dj_name) + r1);
    }

    proof fn lemma_layout_parse(bytes: Seq<u8>) {
        let dj_name = take_text(bytes);
        lemma_text_taken(bytes);
        let total_tips = take_number(after(dj_name));
        lemma_number_taken(after(dj_name));
        let total_ratings = take_number(after(total_tips));
        lemma_number_taken(after(total_tips));
        let rating_sum = take_number(after(total_ratings));
        lemma_number_taken(after(total_ratings));
        assert(after(rating_sum) =~= Seq::<u8>::empty());
        assert(Self::layout(Self::parse(bytes).unwrap()) =~= bytes);
    }
}

} // verus!
