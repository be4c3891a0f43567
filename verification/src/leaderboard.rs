//! The running mean of a DJ's ratings, kept without the ratings themselves.

use crate::model::{LeaderboardData, LeaderboardEntry};
use vstd::prelude::*;

verus! {

impl LeaderboardData {
    /// The row of a DJ whom nobody rated yet.
    pub open spec fn fresh(dj_name: Seq<char>) -> LeaderboardData {
        LeaderboardData { dj_name, total_tips: 0, total_ratings: 0, rating_sum: 0 }
    }

    /// The row after one more rating was folded in.
    pub open spec fn fold(self, rating: u8) -> LeaderboardData {
        LeaderboardData {
            total_ratings: (self.total_ratings + 1) as u64,
            rating_sum: (self.rating_sum + rating) as u64,
            ..self
        }
    }

    /// One more rating can be folded in without a number running over.
    pub open spec fn can_fold(self, rating: u8) -> bool {
        self.total_ratings < u64::MAX && self.rating_sum + rating <= u64::MAX
    }

    /// The mean rating is at least `least`. The mean of no ratings counts as 0.
    pub open spec fn rated_at_least(self, least: u8) -> bool {
        if self.total_ratings == 0 {
            least == 0
        } else {
            self.rating_sum >= least * self.total_ratings
        }
    }
}

impl LeaderboardEntry {
    /// The row of a DJ whom nobody rated yet.
    pub fn new(dj_name: String) -> (entry: LeaderboardEntry)
        ensures
            entry@ == LeaderboardData::fresh(dj_name@),
    {
        LeaderboardEntry { dj_name, total_tips: 0, total_ratings: 0, rating_sum: 0 }
    }

    /// Whether one more rating can be folded in without a number running over.
    pub fn can_fold(&self, rating: u8) -> (b: bool)
        ensures
            b == self@.can_fold(rating),
    {
        self.total_ratings < u64::MAX && self.rating_sum <= u64::MAX - rating as u64
    }

    /// Folds one more rating into the mean.
    pub fn fold_rating(&mut self, rating: u8)
        requires
            old(self)@.can_fold(rating),
        ensures
            final(self)@ == old(self)@.fold(rating),
    {
        self.total_ratings = self.total_ratings + 1;
        self.rating_sum = self.rating_sum + rating as u64;
    }

    /// Whether the mean rating is at least `least`. The mean of no ratings
    /// counts as 0.
    pub fn rated_at_least(&self, least: u8) -> (b: bool)
        ensures
            b == self@.rated_at_least(least),
    {
        if self.total_ratings == 0 {
            least == 0
        } else {
            assert(least * self.total_ratings <= 0xff * 0xffff_ffff_ffff_ffff) by (nonlinear_arith)
                requires
                    least <= 0xff,
                    self.total_ratings <= 0xffff_ffff_ffff_ffff,
            ;
            self.rating_sum as u128 >= least as u128 * self.total_ratings as u128
        }
    }
}

} // verus!
