//! The frecency scorer: a place's rank from how often and how recently it
//! was visited.
//!
//! Each of a place's most recent visits earns a bonus by its kind, weighted
//! by the age bucket it falls in. The points of the sampled visits, in
//! hundredths, are scaled to the place's whole visit count. A place without
//! visits is scored from its bookmark and its typed count alone.

use crate::model::{visit_of, PlaceView, VisitView};
use crate::seq_util::lemma_filter_take_succ;
use crate::store::{visits_view, Place, Visit};
use crate::text::{spec_starts_with, starts_with};
use crate::types::{Timestamp, VisitType};
use vstd::prelude::*;

verus! {

/// Milliseconds in a day.
pub const MS_PER_DAY: u64 = 86_400_000;

/// What the scorer goes by.
#[derive(Clone, Copy, Debug, PartialEq, Eq, Structural)]
pub struct FrecencySettings {
    /// How many of the most recent visits are sampled.
    pub num_visits: u16,
    pub first_bucket_cutoff_days: u16,
    pub second_bucket_cutoff_days: u16,
    pub third_bucket_cutoff_days: u16,
    pub fourth_bucket_cutoff_days: u16,
    pub first_bucket_weight: u16,
    pub second_bucket_weight: u16,
    pub third_bucket_weight: u16,
    pub fourth_bucket_weight: u16,
    pub default_bucket_weight: u16,
    pub embedded_visit_bonus: u16,
    pub framed_link_visit_bonus: u16,
    pub link_visit_bonus: u16,
    pub typed_visit_bonus: u16,
    pub bookmark_visit_bonus: u16,
    pub download_visit_bonus: u16,
    pub permanent_redirect_visit_bonus: u16,
    pub temporary_redirect_visit_bonus: u16,
    pub redirect_source_visit_bonus: u16,
    pub default_visit_bonus: u16,
    pub unvisited_bookmark_bonus: u16,
    pub unvisited_typed_bonus: u16,
    pub reload_visit_bonus: u16,
}

/// The settings that the store scores with.
pub open spec fn default_settings() -> FrecencySettings {
    FrecencySettings {
        num_visits: 10,
        first_bucket_cutoff_days: 4,
        second_bucket_cutoff_days: 14,
        third_bucket_cutoff_days: 31,
        fourth_bucket_cutoff_days: 90,
        first_bucket_weight: 100,
        second_bucket_weight: 70,
        third_bucket_weight: 50,
        fourth_bucket_weight: 30,
        default_bucket_weight: 10,
        embedded_visit_bonus: 0,
        framed_link_visit_bonus: 0,
        link_visit_bonus: 100,
        typed_visit_bonus: 2000,
        bookmark_visit_bonus: 75,
        download_visit_bonus: 0,
        permanent_redirect_visit_bonus: 0,
        temporary_redirect_visit_bonus: 0,
        redirect_source_visit_bonus: 25,
        default_visit_bonus: 0,
        unvisited_bookmark_bonus: 140,
        unvisited_typed_bonus: 200,
        reload_visit_bonus: 0,
    }
}

impl Default for FrecencySettings {
    fn default() -> (r: FrecencySettings)
        ensures
            r == default_settings(),
    {
        FrecencySettings {
            num_visits: 10,
            first_bucket_cutoff_days: 4,
            second_bucket_cutoff_days: 14,
            third_bucket_cutoff_days: 31,
            fourth_bucket_cutoff_days: 90,
            first_bucket_weight: 100,
            second_bucket_weight: 70,
            third_bucket_weight: 50,
            fourth_bucket_weight: 30,
            default_bucket_weight: 10,
            embedded_visit_bonus: 0,
            framed_link_visit_bonus: 0,
            link_visit_bonus: 100,
            typed_visit_bonus: 2000,
            bookmark_visit_bonus: 75,
            download_visit_bonus: 0,
            permanent_redirect_visit_bonus: 0,
            temporary_redirect_visit_bonus: 0,
            redirect_source_visit_bonus: 25,
            default_visit_bonus: 0,
            unvisited_bookmark_bonus: 140,
            unvisited_typed_bonus: 200,
            reload_visit_bonus: 0,
        }
    }
}

/// `a / b`, rounded up.
pub open spec fn ceil_div(a: int, b: int) -> int
    recommends
        a >= 0,
        b > 0,
{
    (a + b - 1) / b
}

/// `x`, held at the largest score.
pub open spec fn capped(x: int) -> int {
    if x > i32::MAX {
        i32::MAX as int
    } else {
        x
    }
}

/// Whole days between a visit and now; a visit from the future is of today.
pub open spec fn age_in_days(now: u64, visit_date: u64) -> int {
    if now >= visit_date {
        (now - visit_date) / (MS_PER_DAY as int)
    } else {
        0
    }
}

/// True when `w` counts as more recent than `v`: it is later, or of the
/// same instant and recorded first.
pub open spec fn more_recent(w: VisitView, v: VisitView) -> bool {
    w.visit_date > v.visit_date || (w.visit_date == v.visit_date && w.id < v.id)
}

/// The visits of `v`'s place that are more recent than `v`.
pub open spec fn newer_than(v: VisitView) -> spec_fn(VisitView) -> bool {
    |w: VisitView| w.place_id == v.place_id && more_recent(w, v)
}

/// How many visits of the same place are more recent than `v`.
pub open spec fn recency_rank(visits: Seq<VisitView>, v: VisitView) -> nat {
    visits.filter(newer_than(v)).len()
}

impl FrecencySettings {
    /// The weight of a visit of the given age.
    pub open spec fn spec_bucket_weight(self, age_days: int) -> int {
        if age_days <= self.first_bucket_cutoff_days {
            self.first_bucket_weight as int
        } else if age_days <= self.second_bucket_cutoff_days {
            self.second_bucket_weight as int
        } else if age_days <= self.third_bucket_cutoff_days {
            self.third_bucket_weight as int
        } else if age_days <= self.fourth_bucket_cutoff_days {
            self.fourth_bucket_weight as int
        } else {
            self.default_bucket_weight as int
        }
    }

    /// The bonus of a visit by its kind; a visit that arrived through a
    /// redirect earns the redirect bonus whatever its kind.
    pub open spec fn spec_transition_bonus(self, visit_type: VisitType, redirect: bool) -> int {
        if redirect {
            self.redirect_source_visit_bonus as int
        } else {
            match visit_type {
                VisitType::Link => self.link_visit_bonus as int,
                VisitType::Typed => self.typed_visit_bonus as int,
                VisitType::Bookmark => self.bookmark_visit_bonus as int,
                VisitType::Embed => self.embedded_visit_bonus as int,
                VisitType::RedirectPermanent => self.permanent_redirect_visit_bonus as int,
                VisitType::RedirectTemporary => self.temporary_redirect_visit_bonus as int,
                VisitType::Download => self.download_visit_bonus as int,
                VisitType::FramedLink => self.framed_link_visit_bonus as int,
                VisitType::Reload => self.reload_visit_bonus as int,
                VisitType::UpdatePlace => self.default_visit_bonus as int,
            }
        }
    }

    /// The bonus of one visit of a place; a bookmarked place adds the
    /// bookmark bonus to each.
    pub open spec fn spec_visit_bonus(
        self,
        bookmarked: bool,
        visit_type: VisitType,
        redirect: bool,
    ) -> int {
        self.spec_transition_bonus(visit_type, redirect) + (if bookmarked {
            self.bookmark_visit_bonus as int
        } else {
            0
        })
    }

    /// True when the visit is one of the place's most recent and earns a bonus.
    pub open spec fn spec_sampled(
        self,
        place: PlaceView,
        visits: Seq<VisitView>,
        v: VisitView,
        redirect: bool,
    ) -> bool {
        &&& v.place_id == place.row_id
        &&& recency_rank(visits, v) < self.num_visits
        &&& self.spec_visit_bonus(place.foreign_count > 0, v.visit_type, redirect) > 0
    }

    /// The points, in hundredths, that the visit adds to its place.
    pub open spec fn spec_visit_points(
        self,
        place: PlaceView,
        visits: Seq<VisitView>,
        v: VisitView,
        now: u64,
        redirect: bool,
    ) -> int {
        if self.spec_sampled(place, visits, v, redirect) {
            self.spec_visit_bonus(place.foreign_count > 0, v.visit_type, redirect)
                * self.spec_bucket_weight(age_in_days(now, v.visit_date))
        } else {
            0
        }
    }

    /// The points of the sampled visits among the first `n`.
    pub open spec fn spec_points(
        self,
        place: PlaceView,
        visits: Seq<VisitView>,
        now: u64,
        redirect: bool,
        n: nat,
    ) -> int
        decreases n,
    {
        if n == 0 || n > visits.len() {
            0
        } else {
            self.spec_points(place, visits, now, redirect, (n - 1) as nat) + self.spec_visit_points(
                place,
                visits,
                visits[n - 1],
                now,
                redirect,
            )
        }
    }

    /// The number of sampled visits among the first `n`.
    pub open spec fn spec_sample_size(
        self,
        place: PlaceView,
        visits: Seq<VisitView>,
        redirect: bool,
        n: nat,
    ) -> int
        decreases n,
    {
        if n == 0 || n > visits.len() {
            0
        } else {
            self.spec_sample_size(place, visits, redirect, (n - 1) as nat) + (if self.spec_sampled(
                place,
                visits,
                visits[n - 1],
                redirect,
            ) {
                1int
            } else {
                0int
            })
        }
    }

    /// The score of a place that has no visit: from its bookmark, unless it
    /// is a stored query, and from its typed count.
    pub open spec fn spec_unvisited_score(self, place: PlaceView) -> int {
        let bonus = (if place.foreign_count > 0 && !is_query_url(place.url) {
            self.unvisited_bookmark_bonus as int
        } else {
            0
        }) + (if place.typed > 0 {
            self.unvisited_typed_bonus as int
        } else {
            0
        });
        ceil_div(self.first_bucket_weight * bonus, 100)
    }

    /// The frecency of `place` given every visit in the store: its visit
    /// count times the sampled points per sampled visit, rounded up, with the
    /// points and the result held at the largest score.
    pub open spec fn spec_score(
        self,
        place: PlaceView,
        visits: Seq<VisitView>,
        now: u64,
        redirect_boost: Option<bool>,
    ) -> int {
        let redirect = redirect_boost == Some(true);
        let visit_count = visits.filter(visit_of(place.row_id)).len() as int;
        let sample = self.spec_sample_size(place, visits, redirect, visits.len());
        let points = capped(
            ceil_div(self.spec_points(place, visits, now, redirect, visits.len()), 100),
        );
        if visit_count == 0 {
            self.spec_unvisited_score(place)
        } else if sample <= 0 {
            0
        } else {
            capped(ceil_div(visit_count * points, sample))
        }
    }
}

/// True for the URL of a stored query rather than of a page.
pub open spec fn is_query_url(url: Seq<char>) -> bool {
    spec_starts_with(url, "place:"@)
}

impl FrecencySettings {
    /// The weight of a visit of the given age in days.
    pub fn bucket_weight(&self, age_days: u64) -> (r: u16)
        ensures
            r == self.spec_bucket_weight(age_days as int),
    {
        if age_days <= self.first_bucket_cutoff_days as u64 {
            self.first_bucket_weight
        } else if age_days <= self.second_bucket_cutoff_days as u64 {
            self.second_bucket_weight
        } else if age_days <= self.third_bucket_cutoff_days as u64 {
            self.third_bucket_weight
        } else if age_days <= self.fourth_bucket_cutoff_days as u64 {
            self.fourth_bucket_weight
        } else {
            self.default_bucket_weight
        }
    }

    /// The bonus of a visit by its kind.
    pub fn transition_bonus(&self, visit_type: VisitType, redirect: bool) -> (r: u16)
        ensures
            r == self.spec_transition_bonus(visit_type, redirect),
    {
        if redirect {
            self.redirect_source_visit_bonus
        } else {
            match visit_type {
                VisitType::Link => self.link_visit_bonus,
                VisitType::Typed => self.typed_visit_bonus,
                VisitType::Bookmark => self.bookmark_visit_bonus,
                VisitType::Embed => self.embedded_visit_bonus,
                VisitType::RedirectPermanent => self.permanent_redirect_visit_bonus,
                VisitType::RedirectTemporary => self.temporary_redirect_visit_bonus,
                VisitType::Download => self.download_visit_bonus,
                VisitType::FramedLink => self.framed_link_visit_bonus,
                VisitType::Reload => self.reload_visit_bonus,
                VisitType::UpdatePlace => self.default_visit_bonus,
            }
        }
    }

    /// Scores `place` against the visits of the store.
    pub fn score(
        &self,
        place: &Place,
        visits: &Vec<Visit>,
        now: Timestamp,
        redirect_boost: Option<bool>,
    ) -> (r: i32)
        ensures
            r == self.spec_score(place@, visits_view(visits@), now.0, redirect_boost),
            r >= 0,
    {
        let redirect = match redirect_boost {
            Some(b) => b,
            None => false,
        };
        let bookmarked = place.foreign_count > 0;
        let ghost all = visits_view(visits@);
        let ghost of_place = visit_of(place@.row_id);
        let mut visit_count: usize = 0;
        let mut sample: usize = 0;
        let mut points: u128 = 0;
        let mut i: usize = 0;
        while i < visits.len()
            invariant
                i <= visits@.len(),
                all == visits_view(visits@),
                of_place == visit_of(place@.row_id),
                redirect == (redirect_boost == Some(true)),
                bookmarked == (place@.foreign_count > 0),
                visit_count == all.take(i as int).filter(of_place).len(),
                visit_count <= i,
                sample == self.spec_sample_size(place@, all, redirect, i as nat),
                sample <= i,
                points == self.spec_points(place@, all, now.0, redirect, i as nat),
                points <= i * 0x2_0000_0000,
            decreases visits.len() - i,
        {
            proof {
                lemma_filter_take_succ(all, of_place, i as int);
            }
            let v = &visits[i];
            if v.place_id.0 == place.row_id.0 {
                visit_count += 1;
                let rank = rank_of(visits, i);
                if rank < self.num_visits as usize {
                    let bonus: u32 = self.transition_bonus(v.visit_type, redirect) as u32 + (
                    if bookmarked {
                        self.bookmark_visit_bonus as u32
                    } else {
                        0
                    });
                    if bonus > 0 {
                        let age: u64 = if now.0 >= v.visit_date.0 {
                            (now.0 - v.visit_date.0) / MS_PER_DAY
                        } else {
                            0
                        };
                        let weight = self.bucket_weight(age) as u32;
                        assert(bonus * weight <= 0x2_0000_0000) by (nonlinear_arith)
                            requires
                                bonus <= 0x1_FFFE,
                                weight <= 0xFFFF,
                        ;
                        sample += 1;
                        points += (bonus as u128) * (weight as u128);
                    }
                }
            }
            i += 1;
        }
        proof {
            assert(all.take(all.len() as int) =~= all);
        }
        if visit_count == 0 {
            let bookmark_bonus: u32 = if bookmarked && !starts_with(place.url.as_str(), "place:") {
                self.unvisited_bookmark_bonus as u32
            } else {
                0
            };
            let typed_bonus: u32 = if place.typed > 0 {
                self.unvisited_typed_bonus as u32
            } else {
                0
            };
            let bonus: u32 = bookmark_bonus + typed_bonus;
            assert((self.first_bucket_weight as u32) * bonus <= 0x2_0000_0000) by (nonlinear_arith)
                requires
                    bonus <= 0x1_FFFE,
                    self.first_bucket_weight <= 0xFFFF,
            ;
            let product: u64 = (self.first_bucket_weight as u64) * (bonus as u64);
            ((product + 99) / 100) as i32
        } else if sample == 0 {
            0
        } else {
            let hundredths: u128 = (points + 99) / 100;
            let capped_points: u128 = if hundredths > i32::MAX as u128 {
                i32::MAX as u128
            } else {
                hundredths
            };
            assert((visit_count as u128) * capped_points <= 0xFFFF_FFFF_FFFF_FFFF * 0x7FFF_FFFF)
                by (nonlinear_arith)
                requires
                    visit_count <= 0xFFFF_FFFF_FFFF_FFFF,
                    capped_points <= 0x7FFF_FFFF,
            ;
            let scaled: u128 = ((visit_count as u128) * capped_points + (sample as u128) - 1) / (
            sample as u128);
            if scaled > i32::MAX as u128 {
                i32::MAX
            } else {
                scaled as i32
            }
        }
    }
}

/// How many visits of the same place are more recent than the one at `at`.
fn rank_of(visits: &Vec<Visit>, at: usize) -> (r: usize)
    requires
        at < visits@.len(),
    ensures
        r == recency_rank(visits_view(visits@), visits@[at as int]@),
{
    let ghost all = visits_view(visits@);
    let ghost newer = newer_than(visits@[at as int]@);
    let v = &visits[at];
    let mut count: usize = 0;
    let mut j: usize = 0;
    while j < visits.len()
        invariant
            j <= visits@.len(),
            at < visits@.len(),
            all == visits_view(visits@),
            newer == newer_than(visits@[at as int]@),
            *v == visits@[at as int],
            count == all.take(j as int).filter(newer).len(),
            count <= j,
        decreases visits.len() - j,
    {
        proof {
            lemma_filter_take_succ(all, newer, j as int);
        }
        let w = &visits[j];
        if w.place_id.0 == v.place_id.0 && (w.visit_date.0 > v.visit_date.0 || (w.visit_date.0
            == v.visit_date.0 && w.id.0 < v.id.0)) {
            count += 1;
        }
        j += 1;
    }
    proof {
        assert(all.take(all.len() as int) =~= all);
    }
    count
}

} // verus!
