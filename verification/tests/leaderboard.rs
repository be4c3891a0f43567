use dj_event_store::error::Error;
use dj_event_store::model::LeaderboardEntry;
use dj_event_store::store::Store;

#[test]
fn rating_an_unknown_dj_fails() {
    let mut store = Store::new();
    assert_eq!(
        store.update_leaderboard_after_rating(4, 5),
        Err(Error::NotFound { msg: "DJ not found".to_string() }),
    );
    assert_eq!(store.get_leaderboard_entry(4), None);
}

#[test]
fn leaderboard_entry_needs_a_name() {
    let mut store = Store::new();
    assert_eq!(
        store.init_leaderboard_entry(4, String::new()),
        Err(Error::InvalidInput { msg: "Invalid input fields".to_string() }),
    );
    let made = store.init_leaderboard_entry(4, "Bob".to_string()).unwrap();
    assert_eq!(
        made,
        LeaderboardEntry {
            dj_name: "Bob".to_string(),
            total_tips: 0,
            total_ratings: 0,
            rating_sum: 0,
        },
    );
    assert_eq!(store.get_leaderboard_entry(4), Some(made));
    assert_eq!(store.last_id(), 0);
}

#[test]
fn folded_ratings_give_count_and_mean() {
    let mut store = Store::new();
    store.init_leaderboard_entry(9, "Bob".to_string()).unwrap();
    let ratings: [u8; 5] = [5, 3, 4, 0, 5];
    for r in ratings {
        assert_eq!(store.update_leaderboard_after_rating(9, r), Ok(()));
    }
    let entry = store.get_leaderboard_entry(9).unwrap();
    assert_eq!(entry.total_ratings, 5);
    assert_eq!(entry.rating_sum, 17);
    assert_eq!(entry.dj_name, "Bob");
    assert_eq!(entry.total_tips, 0);
    let mean = entry.rating_sum as f64 / entry.total_ratings as f64;
    assert!((mean - 3.4).abs() < 1e-12);
}

#[test]
fn init_again_starts_over() {
    let mut store = Store::new();
    store.init_leaderboard_entry(9, "Bob".to_string()).unwrap();
    store.update_leaderboard_after_rating(9, 5).unwrap();
    store.init_leaderboard_entry(9, "Bobby".to_string()).unwrap();
    let entry = store.get_leaderboard_entry(9).unwrap();
    assert_eq!(entry.total_ratings, 0);
    assert_eq!(entry.dj_name, "Bobby");
}

#[test]
fn fold_on_an_entry() {
    let mut entry = LeaderboardEntry::new("Cy".to_string());
    assert!(entry.can_fold(255));
    entry.fold_rating(4);
    entry.fold_rating(5);
    assert_eq!((entry.total_ratings, entry.rating_sum), (2, 9));
    assert!(entry.rated_at_least(4));
    assert!(!entry.rated_at_least(5));
    entry.total_ratings = u64::MAX;
    assert!(!entry.can_fold(0));
    entry.total_ratings = 2;
    entry.rating_sum = u64::MAX - 3;
    assert!(entry.can_fold(3));
    assert!(!entry.can_fold(4));
}

#[test]
fn unrated_dj_has_mean_zero() {
    let entry = LeaderboardEntry::new("Cy".to_string());
    assert!(entry.rated_at_least(0));
    assert!(!entry.rated_at_least(1));
}

#[test]
fn mean_is_compared_exactly() {
    let entry = LeaderboardEntry {
        dj_name: "Cy".to_string(),
        total_tips: 0,
        total_ratings: 3,
        rating_sum: 11,
    };
    assert!(entry.rated_at_least(3));
    assert!(!entry.rated_at_least(4));
    let big = LeaderboardEntry {
        dj_name: "Cy".to_string(),
        total_tips: 0,
        total_ratings: u64::MAX,
        rating_sum: u64::MAX,
    };
    assert!(big.rated_at_least(1));
    assert!(!big.rated_at_least(2));
    assert!(!big.rated_at_least(255));
}

#[test]
fn djs_by_least_rating_in_order_of_identifier() {
    let mut store = Store::new();
    store.init_leaderboard_entry(5, "Five".to_string()).unwrap();
    store.init_leaderboard_entry(2, "Two".to_string()).unwrap();
    store.init_leaderboard_entry(9, "Nine".to_string()).unwrap();
    store.init_leaderboard_entry(7, "Seven".to_string()).unwrap();
    for r in [5u8, 4] {
        store.update_leaderboard_after_rating(5, r).unwrap();
    }
    for r in [2u8, 3] {
        store.update_leaderboard_after_rating(2, r).unwrap();
    }
    store.update_leaderboard_after_rating(9, 4).unwrap();
    let names = |store: &Store, least: u8| -> Vec<String> {
        store
            .search_djs("house".to_string(), least, "anywhere".to_string())
            .into_iter()
            .map(|e| e.dj_name)
            .collect()
    };
    assert_eq!(names(&store, 0), vec!["Two", "Five", "Seven", "Nine"]);
    assert_eq!(names(&store, 3), vec!["Five", "Nine"]);
    assert_eq!(names(&store, 4), vec!["Five", "Nine"]);
    assert_eq!(names(&store, 5), Vec::<String>::new());
    assert_eq!(names(&store, 2), vec!["Two", "Five", "Nine"]);
}
