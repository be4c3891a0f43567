use dj_event_store::error::{Error, ErrorKind};
use dj_event_store::model::{RequestStatus, TipStatus, UserRole, UserStatus};
use dj_event_store::request::{
    EventPayload, PlaylistPayload, RatingPayload, SongRequestPayload, TipPayload, UserPayload,
};
use dj_event_store::store::Store;

fn user(name: &str, contact: &str, role: UserRole) -> UserPayload {
    UserPayload { name: name.to_string(), contact: contact.to_string(), role }
}

fn event(name: &str, dj: &str, venue: &str, capacity: u64, at: u64) -> EventPayload {
    EventPayload {
        event_name: name.to_string(),
        dj_name: dj.to_string(),
        venue: venue.to_string(),
        capacity,
        scheduled_at: at,
    }
}

fn playlist(dj: &str, event_id: u64, songs: &[&str]) -> PlaylistPayload {
    PlaylistPayload {
        dj_name: dj.to_string(),
        event_id,
        song_list: songs.iter().map(|s| s.to_string()).collect(),
    }
}

fn not_found(msg: &str) -> Error {
    Error::NotFound { msg: msg.to_string() }
}

fn invalid(msg: &str) -> Error {
    Error::InvalidInput { msg: msg.to_string() }
}

#[test]
fn end_to_end_user_event_playlist() {
    let mut store = Store::new();
    let alice = store.create_user(user("Alice", "a@x.com", UserRole::RegularUser), 10).unwrap();
    assert_eq!(alice.id, 1);
    assert_eq!(alice.points, 0);
    assert_eq!(alice.status, UserStatus::Active);
    assert_eq!(alice.created_at, 10);

    let rave = store.create_event(event("Rave", "DJ Bob", "Warehouse", 100, 77), 11).unwrap();
    assert_eq!(rave.id, 2);
    assert_eq!(rave.scheduled_at, 77);

    let list = store.create_playlist(playlist("DJ Bob", 2, &["SongA", "SongB"]), 12).unwrap();
    assert_eq!(list.id, 3);
    assert_eq!(list.song_list, vec!["SongA".to_string(), "SongB".to_string()]);

    let missing = store.create_playlist(playlist("DJ Bob", 99, &["SongA"]), 13);
    assert_eq!(missing, Err(not_found("Event not found")));
    assert_eq!(store.last_id(), 3);
}

#[test]
fn new_store_holds_nothing() {
    let store = Store::new();
    assert_eq!(store.last_id(), 0);
    assert_eq!(store.get_user(1), None);
    assert_eq!(store.get_all_events(), Err(not_found("No events found")));
    assert!(store.search_users_by_role(UserRole::Admin).is_empty());
    assert!(store.search_djs(String::new(), 0, String::new()).is_empty());
}

#[test]
fn opened_store_on_fresh_memory_is_empty() {
    let mut store = Store::open();
    assert_eq!(store.last_id(), 0);
    assert_eq!(store.get_all_events(), Err(not_found("No events found")));
    let first = store.create_user(user("Ann", "ann@x.com", UserRole::Admin), 1).unwrap();
    assert_eq!(first.id, 1);
}

#[test]
fn next_id_counts_from_one() {
    let mut store = Store::new();
    assert_eq!(store.next_id(), 1);
    assert_eq!(store.next_id(), 2);
    assert_eq!(store.last_id(), 2);
}

#[test]
fn identifiers_ascend_across_kinds() {
    let mut store = Store::new();
    let mut ids = Vec::new();
    ids.push(store.create_user(user("Ann", "ann@x.com", UserRole::DJ), 1).unwrap().id);
    ids.push(store.create_event(event("Gala", "Ann", "Hall", 50, 9), 2).unwrap().id);
    ids.push(
        store
            .create_song_request(
                SongRequestPayload { user_id: 1, song_name: "Blue".to_string() },
                3,
            )
            .unwrap()
            .id,
    );
    ids.push(
        store
            .create_tip(TipPayload { user_id: 1, dj_name: "Ann".to_string(), amount: 5 }, 4)
            .unwrap()
            .id,
    );
    ids.push(
        store
            .create_rating(
                RatingPayload {
                    user_id: 1,
                    dj_name: "Ann".to_string(),
                    rating: 4,
                    review: "fine".to_string(),
                },
                5,
            )
            .unwrap()
            .id,
    );
    ids.push(store.create_playlist(playlist("Ann", 2, &["Blue"]), 6).unwrap().id);
    assert_eq!(ids, vec![1, 2, 3, 4, 5, 6]);
}

#[test]
fn refused_request_uses_no_identifier() {
    let mut store = Store::new();
    assert!(store.create_user(user("", "x", UserRole::Admin), 1).is_err());
    assert!(store
        .create_song_request(SongRequestPayload { user_id: 7, song_name: "Blue".to_string() }, 1)
        .is_err());
    assert_eq!(store.last_id(), 0);
    assert_eq!(store.create_user(user("Ann", "x", UserRole::Admin), 1).unwrap().id, 1);
}

#[test]
fn create_user_needs_name_and_contact() {
    let mut store = Store::new();
    let expected = invalid("Name and contact fields are required");
    assert_eq!(store.create_user(user("", "a@x.com", UserRole::Admin), 1), Err(
        invalid("Name and contact fields are required"),
    ));
    assert_eq!(store.create_user(user("Ann", "", UserRole::Admin), 1), Err(expected));
    assert_eq!(store.get_user(1), None);
}

#[test]
fn created_user_is_kept() {
    let mut store = Store::new();
    let made = store.create_user(user("Zoë", "zoe@x.com", UserRole::DJ), 123).unwrap();
    let kept = store.get_user(made.id).unwrap();
    assert_eq!(kept, made);
    assert_eq!(kept.name, "Zoë");
    assert_eq!(kept.role, UserRole::DJ);
    assert_eq!(kept.created_at, 123);
}

#[test]
fn song_request_needs_known_user() {
    let mut store = Store::new();
    let payload = SongRequestPayload { user_id: 1, song_name: "Blue".to_string() };
    assert_eq!(store.create_song_request(payload.clone(), 1), Err(not_found("User not found")));
    store.create_user(user("Ann", "x", UserRole::RegularUser), 1).unwrap();
    let made = store.create_song_request(payload, 2).unwrap();
    assert_eq!(made.id, 2);
    assert_eq!(made.user_id, 1);
    assert_eq!(made.request_status, RequestStatus::Pending);
    assert_eq!(store.get_song_request(2), Some(made));
    assert_eq!(store.get_song_request(3), None);
}

#[test]
fn song_request_needs_song_name() {
    let mut store = Store::new();
    let payload = SongRequestPayload { user_id: 1, song_name: String::new() };
    assert_eq!(store.create_song_request(payload, 1), Err(invalid("Invalid input fields")));
}

#[test]
fn tip_needs_known_user_amount_and_dj() {
    let mut store = Store::new();
    let tip = |user_id, dj: &str, amount| TipPayload { user_id, dj_name: dj.to_string(), amount };
    assert_eq!(store.create_tip(tip(1, "Bob", 5), 1), Err(not_found("User not found")));
    store.create_user(user("Ann", "x", UserRole::RegularUser), 1).unwrap();
    assert_eq!(store.create_tip(tip(1, "Bob", 0), 2), Err(invalid("Invalid input fields")));
    assert_eq!(store.create_tip(tip(1, "", 5), 2), Err(invalid("Invalid input fields")));
    assert_eq!(store.create_tip(tip(9, "", 0), 2), Err(invalid("Invalid input fields")));
    let made = store.create_tip(tip(1, "Bob", 5), 3).unwrap();
    assert_eq!(made.id, 2);
    assert_eq!(made.amount, 5);
    assert_eq!(made.tip_status, TipStatus::Pending);
    assert_eq!(store.get_tip(2), Some(made));
}

#[test]
fn rating_needs_known_user_dj_and_range() {
    let mut store = Store::new();
    let rating = |user_id, dj: &str, rating| RatingPayload {
        user_id,
        dj_name: dj.to_string(),
        rating,
        review: "ok".to_string(),
    };
    assert_eq!(store.create_rating(rating(1, "Bob", 5), 1), Err(not_found("User not found")));
    store.create_user(user("Ann", "x", UserRole::RegularUser), 1).unwrap();
    assert_eq!(store.create_rating(rating(1, "", 5), 2), Err(invalid("Invalid input fields")));
    assert_eq!(store.create_rating(rating(1, "Bob", 6), 2), Err(invalid("Invalid input fields")));
    let low = store.create_rating(rating(1, "Bob", 0), 3).unwrap();
    let high = store.create_rating(rating(1, "Bob", 5), 4).unwrap();
    assert_eq!((low.id, high.id), (2, 3));
    assert_eq!(store.get_rating(3), Some(high));
}

#[test]
fn event_needs_its_fields() {
    let mut store = Store::new();
    let bad = invalid("Invalid input fields");
    assert_eq!(store.create_event(event("", "Bob", "Hall", 10, 1), 1), Err(
        invalid("Invalid input fields"),
    ));
    assert_eq!(store.create_event(event("Gala", "", "Hall", 10, 1), 1), Err(
        invalid("Invalid input fields"),
    ));
    assert_eq!(store.create_event(event("Gala", "Bob", "", 10, 1), 1), Err(
        invalid("Invalid input fields"),
    ));
    assert_eq!(store.create_event(event("Gala", "Bob", "Hall", 0, 1), 1), Err(bad));
    let made = store.create_event(event("Gala", "Bob", "Hall", 10, 0), 1).unwrap();
    assert_eq!(made.id, 1);
    assert_eq!(store.get_event(1), Some(made));
}

#[test]
fn playlist_needs_dj_or_songs_and_known_event() {
    let mut store = Store::new();
    assert_eq!(store.create_playlist(playlist("", 1, &[]), 1), Err(
        invalid("Invalid input fields"),
    ));
    assert_eq!(store.create_playlist(playlist("Bob", 1, &[]), 1), Err(
        not_found("Event not found"),
    ));
    store.create_event(event("Gala", "Bob", "Hall", 10, 0), 1).unwrap();
    let no_songs = store.create_playlist(playlist("Bob", 1, &[]), 2).unwrap();
    let no_dj = store.create_playlist(playlist("", 1, &["Blue", "", "Réd"]), 3).unwrap();
    assert_eq!((no_songs.id, no_dj.id), (2, 3));
    assert_eq!(store.get_playlist(2), Some(no_songs));
    let kept = store.get_playlist(3).unwrap();
    assert_eq!(kept.song_list, vec!["Blue".to_string(), String::new(), "Réd".to_string()]);
    assert_eq!(kept, no_dj);
}

#[test]
fn delete_user_then_search_by_role() {
    let mut store = Store::new();
    store.create_user(user("Ann", "a", UserRole::DJ), 1).unwrap();
    store.create_user(user("Ben", "b", UserRole::Admin), 2).unwrap();
    store.create_user(user("Cy", "c", UserRole::DJ), 3).unwrap();
    let names = |store: &Store, role| -> Vec<String> {
        store.search_users_by_role(role).into_iter().map(|u| u.name).collect()
    };
    assert_eq!(names(&store, UserRole::DJ), vec!["Ann".to_string(), "Cy".to_string()]);
    assert_eq!(names(&store, UserRole::Admin), vec!["Ben".to_string()]);
    assert!(names(&store, UserRole::RegularUser).is_empty());

    assert_eq!(store.delete_user(1), Ok(()));
    assert_eq!(names(&store, UserRole::DJ), vec!["Cy".to_string()]);
    assert_eq!(store.get_user(1), None);
    assert_eq!(store.delete_user(1), Err(not_found("User with ID 1 not found")));
}

#[test]
fn delete_unknown_names_the_identifier() {
    let mut store = Store::new();
    assert_eq!(store.delete_user(0), Err(not_found("User with ID 0 not found")));
    assert_eq!(store.delete_user(42), Err(not_found("User with ID 42 not found")));
    assert_eq!(
        store.delete_event(18446744073709551615),
        Err(not_found("Event with ID 18446744073709551615 not found")),
    );
}

#[test]
fn delete_event_leaves_playlists() {
    let mut store = Store::new();
    store.create_event(event("Gala", "Bob", "Hall", 10, 0), 1).unwrap();
    store.create_playlist(playlist("Bob", 1, &["Blue"]), 2).unwrap();
    assert_eq!(store.delete_event(1), Ok(()));
    assert_eq!(store.get_event(1), None);
    assert_eq!(store.get_playlist_by_event_id(1).unwrap().len(), 1);
    assert_eq!(store.create_playlist(playlist("Bob", 1, &["Red"]), 3), Err(
        not_found("Event not found"),
    ));
}

#[test]
fn deleting_a_user_leaves_the_rows_that_refer_to_it() {
    let mut store = Store::new();
    store.create_user(user("Ann", "a", UserRole::RegularUser), 1).unwrap();
    store
        .create_song_request(SongRequestPayload { user_id: 1, song_name: "Blue".to_string() }, 2)
        .unwrap();
    assert_eq!(store.delete_user(1), Ok(()));
    assert_eq!(store.get_song_request(2).unwrap().user_id, 1);
}

#[test]
fn points_are_added_to_known_users() {
    let mut store = Store::new();
    store.create_user(user("Ann", "a", UserRole::RegularUser), 1).unwrap();
    assert!(store.update_user_points(1, 10));
    assert!(store.update_user_points(1, 5));
    assert!(store.update_user_points(1, 0));
    let ann = store.get_user(1).unwrap();
    assert_eq!(ann.points, 15);
    assert_eq!(ann.name, "Ann");
    assert!(!store.update_user_points(2, 10));
    assert_eq!(store.get_user(2), None);
}

#[test]
fn events_are_listed_by_identifier() {
    let mut store = Store::new();
    store.create_event(event("C", "Bob", "Hall", 1, 0), 1).unwrap();
    store.create_user(user("Ann", "a", UserRole::RegularUser), 2).unwrap();
    store.create_event(event("A", "Bob", "Hall", 1, 0), 3).unwrap();
    store.create_event(event("B", "Bob", "Hall", 1, 0), 4).unwrap();
    let all = store.get_all_events().unwrap();
    let ids: Vec<u64> = all.iter().map(|e| e.id).collect();
    let names: Vec<&str> = all.iter().map(|e| e.event_name.as_str()).collect();
    assert_eq!(ids, vec![1, 3, 4]);
    assert_eq!(names, vec!["C", "A", "B"]);
}

#[test]
fn event_by_name_is_the_first_match() {
    let mut store = Store::new();
    assert_eq!(store.get_event_by_name("Gala".to_string()), Err(not_found("Event not found")));
    store.create_event(event("Gala", "Bob", "Hall", 1, 0), 1).unwrap();
    store.create_event(event("Rave", "Bob", "Shed", 1, 0), 2).unwrap();
    store.create_event(event("Gala", "Cy", "Barn", 1, 0), 3).unwrap();
    assert_eq!(store.get_event_by_name("Gala".to_string()).unwrap().id, 1);
    assert_eq!(store.get_event_by_name("Rave".to_string()).unwrap().venue, "Shed");
    assert_eq!(store.get_event_by_name("gala".to_string()), Err(not_found("Event not found")));
    store.delete_event(1).unwrap();
    assert_eq!(store.get_event_by_name("Gala".to_string()).unwrap().id, 3);
}

#[test]
fn events_by_page() {
    let mut store = Store::new();
    assert_eq!(store.get_paginated_events(1, 3), Err(not_found("No events found")));
    for i in 0..7 {
        store.create_event(event("Gala", "Bob", "Hall", 1, i), i).unwrap();
    }
    let ids = |r: Result<Vec<dj_event_store::model::Event>, Error>| -> Vec<u64> {
        r.unwrap().into_iter().map(|e| e.id).collect()
    };
    assert_eq!(ids(store.get_paginated_events(1, 3)), vec![1, 2, 3]);
    assert_eq!(ids(store.get_paginated_events(2, 3)), vec![4, 5, 6]);
    assert_eq!(ids(store.get_paginated_events(3, 3)), vec![7]);
    assert_eq!(ids(store.get_paginated_events(10, 3)), Vec::<u64>::new());
    assert_eq!(ids(store.get_paginated_events(0, 2)), vec![1, 2]);
}

#[test]
fn playlists_by_dj_and_by_event() {
    let mut store = Store::new();
    store.create_event(event("Gala", "Bob", "Hall", 1, 0), 1).unwrap();
    store.create_event(event("Rave", "Cy", "Shed", 1, 0), 2).unwrap();
    store.create_playlist(playlist("Bob", 1, &["a"]), 3).unwrap();
    store.create_playlist(playlist("Cy", 2, &["b"]), 4).unwrap();
    store.create_playlist(playlist("Bob", 2, &["c"]), 5).unwrap();
    let ids = |r: Result<Vec<dj_event_store::model::Playlist>, Error>| -> Vec<u64> {
        r.unwrap().into_iter().map(|p| p.id).collect()
    };
    assert_eq!(ids(store.get_playlist_by_dj_name("Bob".to_string())), vec![3, 5]);
    assert_eq!(ids(store.get_playlist_by_dj_name("Cy".to_string())), vec![4]);
    assert_eq!(ids(store.get_playlist_by_event_id(2)), vec![4, 5]);
    assert_eq!(
        store.get_playlist_by_dj_name("Dee".to_string()),
        Err(not_found("No playlists found for DJ: Dee")),
    );
    assert_eq!(
        store.get_playlist_by_event_id(77),
        Err(not_found("No playlists found for event ID: 77")),
    );
}

#[test]
fn error_kinds_and_messages() {
    let errors = [
        (Error::NotFound { msg: "a".to_string() }, ErrorKind::NotFound, "a"),
        (Error::InvalidInput { msg: "b".to_string() }, ErrorKind::InvalidInput, "b"),
        (Error::AlreadyExists { msg: "c".to_string() }, ErrorKind::AlreadyExists, "c"),
        (Error::Unauthorized { msg: "".to_string() }, ErrorKind::Unauthorized, ""),
    ];
    for (error, kind, message) in errors {
        assert_eq!(error.kind(), kind);
        assert_eq!(error.message(), message);
    }
}

#[test]
fn payloads_of_usual_size_are_storable() {
    assert!(user("Ann", "a", UserRole::Admin).storable());
    assert!(user("", "", UserRole::Admin).storable());
    assert!(event("Gala", "Bob", "Hall", 1, 0).storable());
    assert!(playlist("Bob", 1, &["a", "b", "c"]).storable());
    assert!(SongRequestPayload { user_id: 1, song_name: "x".repeat(100_000) }.storable());
    assert!(TipPayload { user_id: 1, dj_name: "Bob".to_string(), amount: 1 }.storable());
    let rating = RatingPayload {
        user_id: 1,
        dj_name: "Bob".to_string(),
        rating: 1,
        review: "fine".to_string(),
    };
    assert!(rating.storable());
    assert_eq!(rating.clone(), rating);
}

#[test]
fn long_rows_are_kept_whole() {
    let mut store = Store::new();
    let name = "n".repeat(70_000);
    let made = store.create_user(user(&name, "c", UserRole::Admin), 1).unwrap();
    assert_eq!(store.get_user(made.id).unwrap().name.len(), 70_000);
    store.create_event(event("Gala", "Bob", "Hall", 1, 0), 1).unwrap();
    let songs: Vec<String> = (0..3000).map(|i| format!("song {i}")).collect();
    let made = store
        .create_playlist(
            PlaylistPayload { dj_name: "Bob".to_string(), event_id: 2, song_list: songs.clone() },
            2,
        )
        .unwrap();
    assert_eq!(store.get_playlist(made.id).unwrap().song_list, songs);
}

#[test]
fn a_store_keeps_to_issued_identifiers() {
    let mut store = Store::new();
    assert!(store.issued_only());
    store.create_user(user("Ann", "a", UserRole::DJ), 1).unwrap();
    store.create_event(event("Gala", "Bob", "Hall", 1, 0), 2).unwrap();
    store.init_leaderboard_entry(1000, "Bob".to_string()).unwrap();
    store.delete_user(1).unwrap();
    assert!(store.issued_only());
}

#[test]
fn many_rows_come_back_in_order() {
    let mut store = Store::new();
    for i in 0..300u64 {
        store.create_event(event("Gala", "Bob", "Hall", 1 + i, i), i).unwrap();
    }
    for id in (2..=300u64).step_by(3) {
        store.delete_event(id).unwrap();
    }
    let ids: Vec<u64> = store.get_all_events().unwrap().into_iter().map(|e| e.id).collect();
    let expected: Vec<u64> = (1..=300u64).filter(|id| id % 3 != 2).collect();
    assert_eq!(ids, expected);
    assert_eq!(store.get_event(2), None);
    assert_eq!(store.get_event(3).unwrap().capacity, 3);
}
