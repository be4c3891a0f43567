use dj_event_store::codec::{
    read_byte, read_list, read_number, read_text, room_after_list, room_after_text,
    write_byte, write_list, write_number, write_text,
};
use dj_event_store::model::{
    Event, LeaderboardEntry, Playlist, Rating, RequestStatus, SongRequest, Tip, TipStatus, User,
    UserRole, UserStatus,
};
use dj_event_store::record::Record;
use dj_event_store::text::{around_number, decimal_string, followed_by};

#[test]
fn number_is_eight_bytes_low_first() {
    let mut out = vec![9u8];
    write_number(&mut out, 0x0102_0304_0506_0708);
    assert_eq!(out, vec![9, 8, 7, 6, 5, 4, 3, 2, 1]);
    assert_eq!(read_number(&out, 1), Some((0x0102_0304_0506_0708, 9)));
    assert_eq!(read_number(&out, 2), None);
    assert_eq!(read_number(&out, 9), None);
}

#[test]
fn byte_is_read_back() {
    let mut out = Vec::new();
    write_byte(&mut out, 200);
    assert_eq!(out, vec![200]);
    assert_eq!(read_byte(&out, 0), Some((200, 1)));
    assert_eq!(read_byte(&out, 1), None);
}

#[test]
fn text_is_length_then_utf8() {
    let mut out = Vec::new();
    write_text(&mut out, "hé");
    assert_eq!(out, vec![3, 0, 0, 0, 0, 0, 0, 0, b'h', 0xc3, 0xa9]);
    assert_eq!(read_text(&out, 0), Some(("hé".to_string(), 11)));
    let mut empty = Vec::new();
    write_text(&mut empty, "");
    assert_eq!(empty, vec![0; 8]);
    assert_eq!(read_text(&empty, 0), Some((String::new(), 8)));
}

#[test]
fn text_that_is_cut_short_or_not_utf8_is_refused() {
    let short = vec![3, 0, 0, 0, 0, 0, 0, 0, b'h', b'i'];
    assert_eq!(read_text(&short, 0), None);
    let broken = vec![2, 0, 0, 0, 0, 0, 0, 0, 0xc3, 0x28];
    assert_eq!(read_text(&broken, 0), None);
    let lone = vec![1, 0, 0, 0, 0, 0, 0, 0, 0xff];
    assert_eq!(read_text(&lone, 0), None);
    let huge = vec![0xff; 8];
    assert_eq!(read_text(&huge, 0), None);
}

#[test]
fn list_is_count_then_texts() {
    let list = vec!["a".to_string(), String::new(), "bc".to_string()];
    let mut out = Vec::new();
    write_list(&mut out, &list);
    assert_eq!(out.len(), 8 + 9 + 8 + 10);
    assert_eq!(out[0], 3);
    assert_eq!(read_list(&out, 0), Some((list, 35)));
    let mut none = Vec::new();
    write_list(&mut none, &Vec::new());
    assert_eq!(read_list(&none, 0), Some((Vec::new(), 8)));
    let too_many = vec![0xff, 0xff, 0xff, 0xff, 0xff, 0xff, 0xff, 0xff, 0, 0];
    assert_eq!(read_list(&too_many, 0), None);
}

#[test]
fn user_row_round_trip() {
    let row = User {
        id: 7,
        name: "Zoë".to_string(),
        contact: "z@x.com".to_string(),
        created_at: 99,
        status: UserStatus::Deactivated,
        role: UserRole::DJ,
        points: u64::MAX,
    };
    let bytes = row.encode();
    assert_eq!(User::decode(&bytes), Some(row.clone()));
    assert_eq!(row.key(), Some(7));
    assert_eq!(&bytes[..8], &[7, 0, 0, 0, 0, 0, 0, 0]);
}

#[test]
fn user_row_with_bad_bytes_is_refused() {
    let row = User {
        id: 7,
        name: "Ann".to_string(),
        contact: "a".to_string(),
        created_at: 99,
        status: UserStatus::Active,
        role: UserRole::Admin,
        points: 3,
    };
    let bytes = row.encode();
    assert_eq!(User::decode(&bytes[..bytes.len() - 1]), None);
    let mut longer = bytes.clone();
    longer.push(0);
    assert_eq!(User::decode(&longer), None);
    let mut bad_role = bytes.clone();
    let role_at = bytes.len() - 9;
    assert_eq!(bad_role[role_at], 1);
    bad_role[role_at] = 3;
    assert_eq!(User::decode(&bad_role), None);
    let mut bad_status = bytes.clone();
    bad_status[role_at - 1] = 2;
    assert_eq!(User::decode(&bad_status), None);
    assert_eq!(User::decode(&[]), None);
}

#[test]
fn other_rows_round_trip() {
    let request = SongRequest {
        id: 1,
        user_id: 2,
        song_name: "Blue".to_string(),
        request_status: RequestStatus::Played,
        created_at: 3,
    };
    assert_eq!(SongRequest::decode(&request.encode()), Some(request));
    let tip = Tip {
        id: 1,
        user_id: 2,
        dj_name: "Bob".to_string(),
        amount: 500,
        tip_status: TipStatus::Completed,
        created_at: 3,
    };
    assert_eq!(Tip::decode(&tip.encode()), Some(tip));
    let event = Event {
        id: 1,
        event_name: "Gala".to_string(),
        dj_name: "Bob".to_string(),
        venue: "Hall".to_string(),
        capacity: 10,
        scheduled_at: 20,
        created_at: 30,
    };
    assert_eq!(Event::decode(&event.encode()), Some(event));
    let rating = Rating {
        id: 1,
        user_id: 2,
        dj_name: "Bob".to_string(),
        rating: 5,
        review: "good".to_string(),
        created_at: 3,
    };
    assert_eq!(Rating::decode(&rating.encode()), Some(rating));
    let playlist = Playlist {
        id: 1,
        dj_name: "Bob".to_string(),
        event_id: 2,
        song_list: vec!["a".to_string(), "b".to_string()],
        created_at: 3,
    };
    assert_eq!(Playlist::decode(&playlist.encode()), Some(playlist));
    let entry = LeaderboardEntry {
        dj_name: "Bob".to_string(),
        total_tips: 1,
        total_ratings: 2,
        rating_sum: 3,
    };
    assert_eq!(entry.key(), None);
    assert_eq!(LeaderboardEntry::decode(&entry.encode()), Some(entry));
}

#[test]
fn rows_of_one_kind_are_not_read_as_another() {
    let tip = Tip {
        id: 1,
        user_id: 2,
        dj_name: "Bob".to_string(),
        amount: 500,
        tip_status: TipStatus::Completed,
        created_at: 3,
    };
    assert_eq!(User::decode(&tip.encode()), None);
    assert_eq!(Event::decode(&tip.encode()), None);
}

#[test]
fn numbers_in_decimal() {
    assert_eq!(decimal_string(0), "0");
    assert_eq!(decimal_string(7), "7");
    assert_eq!(decimal_string(10), "10");
    assert_eq!(decimal_string(1234567890), "1234567890");
    assert_eq!(decimal_string(u64::MAX), "18446744073709551615");
}

#[test]
fn messages_are_put_together() {
    assert_eq!(around_number("a ", 12, " b"), "a 12 b");
    assert_eq!(around_number("", 0, ""), "0");
    assert_eq!(followed_by("for: ", "DJ"), "for: DJ");
}

#[test]
fn room_is_taken_by_texts() {
    assert_eq!(room_after_text("", 8), Some(0));
    assert_eq!(room_after_text("", 7), None);
    assert_eq!(room_after_text("hé", 20), Some(9));
    assert_eq!(room_after_text("hé", 10), None);
    assert_eq!(room_after_text("abc", u64::MAX), Some(u64::MAX - 11));
    let list = vec!["a".to_string(), "bc".to_string()];
    assert_eq!(room_after_list(&list, 27), Some(0));
    assert_eq!(room_after_list(&list, 26), None);
    assert_eq!(room_after_list(&list, 7), None);
    assert_eq!(room_after_list(&Vec::new(), 8), Some(0));
    let mut written = Vec::new();
    write_list(&mut written, &list);
    assert_eq!(written.len(), 27);
}
