//! Plain value types shared by the whole history engine.

use vstd::prelude::*;

verus! {

/// Longest URL, in bytes, that the store accepts.
pub const URL_LENGTH_MAX: usize = 65536;

/// Longest title, in bytes, that the store keeps.
pub const TITLE_LENGTH_MAX: usize = 4096;

/// Milliseconds since the Unix epoch.
#[derive(Clone, Copy, Debug, PartialEq, Eq, Structural, PartialOrd, Ord, Hash)]
pub struct Timestamp(pub u64);

impl Timestamp {
    /// The timestamp `millis` milliseconds earlier, if there is one.
    pub fn checked_sub(self, millis: u64) -> (r: Option<Timestamp>)
        ensures
            r == (if millis <= self.0 {
                Some(Timestamp((self.0 - millis) as u64))
            } else {
                None
            }),
    {
        if millis <= self.0 {
            Some(Timestamp(self.0 - millis))
        } else {
            None
        }
    }

    /// The timestamp in milliseconds.
    pub fn as_millis(self) -> (r: u64)
        ensures
            r == self.0,
    {
        self.0
    }
}

/// Microseconds since the Unix epoch, as visits travel in sync records.
#[derive(Clone, Copy, Debug, PartialEq, Eq, Structural, PartialOrd, Ord, Hash)]
pub struct ServerVisitTimestamp(pub u64);

impl ServerVisitTimestamp {
    /// What `from_timestamp` computes: a thousand times the milliseconds,
    /// held at the largest value where that would not fit.
    pub open spec fn spec_from_timestamp(ts: Timestamp) -> ServerVisitTimestamp {
        if ts.0 * 1000 <= u64::MAX {
            ServerVisitTimestamp((ts.0 * 1000) as u64)
        } else {
            ServerVisitTimestamp(u64::MAX)
        }
    }

    /// The local timestamp that a record's time stands for.
    pub open spec fn spec_to_timestamp(self) -> Timestamp {
        Timestamp(self.0 / 1000)
    }

    pub fn from_timestamp(ts: Timestamp) -> (r: ServerVisitTimestamp)
        ensures
            r == Self::spec_from_timestamp(ts),
    {
        if ts.0 <= u64::MAX / 1000 {
            ServerVisitTimestamp(ts.0 * 1000)
        } else {
            ServerVisitTimestamp(u64::MAX)
        }
    }

    pub fn to_timestamp(self) -> (r: Timestamp)
        ensures
            r == self.spec_to_timestamp(),
    {
        Timestamp(self.0 / 1000)
    }
}

/// Identifier of a row, unique within its table for the row's lifetime.
#[derive(Clone, Copy, Debug, PartialEq, Eq, Structural, PartialOrd, Ord, Hash)]
pub struct RowId(pub i64);

/// Why the store refused a change. Nothing is changed when one is returned.
#[derive(Clone, Copy, Debug, PartialEq, Eq, Structural, Hash)]
pub enum HistoryError {
    /// A place would get a GUID that another place has.
    GuidInUse,
    /// No row identifier is left for a new place or visit.
    RowIdsExhausted,
    /// A counter of a place is at its largest value.
    CounterOverflow,
    /// No place has the row identifier that was given.
    NoSuchPlace,
    /// The place cannot be deleted while a bookmark or keyword points at it.
    PlaceReferenced,
}

impl HistoryError {
    /// A sentence that says what went wrong.
    pub fn message(&self) -> (r: &'static str)
        ensures
            r@ == (match *self {
                HistoryError::GuidInUse => "another place already has this GUID"@,
                HistoryError::RowIdsExhausted => "no row identifier is left"@,
                HistoryError::CounterOverflow => "a counter of the place cannot grow"@,
                HistoryError::NoSuchPlace => "no place has this row identifier"@,
                HistoryError::PlaceReferenced => "the place is still referenced"@,
            }),
    {
        match self {
            HistoryError::GuidInUse => "another place already has this GUID",
            HistoryError::RowIdsExhausted => "no row identifier is left",
            HistoryError::CounterOverflow => "a counter of the place cannot grow",
            HistoryError::NoSuchPlace => "no place has this row identifier",
            HistoryError::PlaceReferenced => "the place is still referenced",
        }
    }
}

/// Whether the remote side has ever seen a place.
#[derive(Clone, Copy, Debug, PartialEq, Eq, Structural, Hash)]
pub enum SyncStatus {
    Unknown,
    New,
    Normal,
}

/// How the user arrived at a page.
#[derive(Clone, Copy, Debug, PartialEq, Eq, Structural, Hash)]
pub enum VisitType {
    Link,
    Typed,
    Bookmark,
    Embed,
    RedirectPermanent,
    RedirectTemporary,
    Download,
    FramedLink,
    Reload,
    UpdatePlace,
}

impl VisitType {
    /// The integer tag under which a visit type is stored and synced.
    pub open spec fn spec_as_u8(self) -> u8 {
        match self {
            VisitType::Link => 1,
            VisitType::Typed => 2,
            VisitType::Bookmark => 3,
            VisitType::Embed => 4,
            VisitType::RedirectPermanent => 5,
            VisitType::RedirectTemporary => 6,
            VisitType::Download => 7,
            VisitType::FramedLink => 8,
            VisitType::Reload => 9,
            VisitType::UpdatePlace => 10,
        }
    }

    /// The visit type with the given tag, if the tag is one.
    pub open spec fn spec_from_primitive(p: u8) -> Option<VisitType> {
        if p == 1 {
            Some(VisitType::Link)
        } else if p == 2 {
            Some(VisitType::Typed)
        } else if p == 3 {
            Some(VisitType::Bookmark)
        } else if p == 4 {
            Some(VisitType::Embed)
        } else if p == 5 {
            Some(VisitType::RedirectPermanent)
        } else if p == 6 {
            Some(VisitType::RedirectTemporary)
        } else if p == 7 {
            Some(VisitType::Download)
        } else if p == 8 {
            Some(VisitType::FramedLink)
        } else if p == 9 {
            Some(VisitType::Reload)
        } else if p == 10 {
            Some(VisitType::UpdatePlace)
        } else {
            None
        }
    }

    pub fn as_u8(self) -> (r: u8)
        ensures
            r == self.spec_as_u8(),
            1 <= r <= 10,
    {
        match self {
            VisitType::Link => 1,
            VisitType::Typed => 2,
            VisitType::Bookmark => 3,
            VisitType::Embed => 4,
            VisitType::RedirectPermanent => 5,
            VisitType::RedirectTemporary => 6,
            VisitType::Download => 7,
            VisitType::FramedLink => 8,
            VisitType::Reload => 9,
            VisitType::UpdatePlace => 10,
        }
    }

    pub fn from_primitive(p: u8) -> (r: Option<VisitType>)
        ensures
            r == Self::spec_from_primitive(p),
            r is Some <==> 1 <= p <= 10,
            r matches Some(t) ==> t.spec_as_u8() == p,
    {
        match p {
            1 => Some(VisitType::Link),
            2 => Some(VisitType::Typed),
            3 => Some(VisitType::Bookmark),
            4 => Some(VisitType::Embed),
            5 => Some(VisitType::RedirectPermanent),
            6 => Some(VisitType::RedirectTemporary),
            7 => Some(VisitType::Download),
            8 => Some(VisitType::FramedLink),
            9 => Some(VisitType::Reload),
            10 => Some(VisitType::UpdatePlace),
            _ => None,
        }
    }
}

/// Tags and visit types round-trip.
pub proof fn lemma_visit_type_round_trip(t: VisitType)
    ensures
        VisitType::spec_from_primitive(t.spec_as_u8()) == Some(t),
{
}

/// A set of visit types, used to leave kinds of visit out of a query.
#[derive(Clone, Copy, Debug, PartialEq, Eq, Structural, Hash)]
pub struct VisitTransitionSet {
    pub link: bool,
    pub typed: bool,
    pub bookmark: bool,
    pub embed: bool,
    pub redirect_permanent: bool,
    pub redirect_temporary: bool,
    pub download: bool,
    pub framed_link: bool,
    pub reload: bool,
    pub update_place: bool,
}

impl VisitTransitionSet {
    pub open spec fn spec_empty() -> VisitTransitionSet {
        VisitTransitionSet {
            link: false,
            typed: false,
            bookmark: false,
            embed: false,
            redirect_permanent: false,
            redirect_temporary: false,
            download: false,
            framed_link: false,
            reload: false,
            update_place: false,
        }
    }

    pub open spec fn spec_contains(self, t: VisitType) -> bool {
        match t {
            VisitType::Link => self.link,
            VisitType::Typed => self.typed,
            VisitType::Bookmark => self.bookmark,
            VisitType::Embed => self.embed,
            VisitType::RedirectPermanent => self.redirect_permanent,
            VisitType::RedirectTemporary => self.redirect_temporary,
            VisitType::Download => self.download,
            VisitType::FramedLink => self.framed_link,
            VisitType::Reload => self.reload,
            VisitType::UpdatePlace => self.update_place,
        }
    }

    pub open spec fn spec_insert(self, t: VisitType) -> VisitTransitionSet {
        match t {
            VisitType::Link => VisitTransitionSet { link: true, ..self },
            VisitType::Typed => VisitTransitionSet { typed: true, ..self },
            VisitType::Bookmark => VisitTransitionSet { bookmark: true, ..self },
            VisitType::Embed => VisitTransitionSet { embed: true, ..self },
            VisitType::RedirectPermanent => VisitTransitionSet { redirect_permanent: true, ..self },
            VisitType::RedirectTemporary => VisitTransitionSet { redirect_temporary: true, ..self },
            VisitType::Download => VisitTransitionSet { download: true, ..self },
            VisitType::FramedLink => VisitTransitionSet { framed_link: true, ..self },
            VisitType::Reload => VisitTransitionSet { reload: true, ..self },
            VisitType::UpdatePlace => VisitTransitionSet { update_place: true, ..self },
        }
    }

    /// The set that holds the first `n` of `types`, and nothing else.
    pub open spec fn spec_for_prefix(types: Seq<VisitType>, n: nat) -> VisitTransitionSet
        decreases n,
    {
        if n == 0 || n > types.len() {
            Self::spec_empty()
        } else {
            Self::spec_for_prefix(types, (n - 1) as nat).spec_insert(types[n - 1])
        }
    }

    pub fn empty() -> (r: VisitTransitionSet)
        ensures
            r == Self::spec_empty(),
            forall|t: VisitType| !r.spec_contains(t),
    {
        VisitTransitionSet {
            link: false,
            typed: false,
            bookmark: false,
            embed: false,
            redirect_permanent: false,
            redirect_temporary: false,
            download: false,
            framed_link: false,
            reload: false,
            update_place: false,
        }
    }

    pub fn contains(&self, t: VisitType) -> (r: bool)
        ensures
            r == self.spec_contains(t),
    {
        match t {
            VisitType::Link => self.link,
            VisitType::Typed => self.typed,
            VisitType::Bookmark => self.bookmark,
            VisitType::Embed => self.embed,
            VisitType::RedirectPermanent => self.redirect_permanent,
            VisitType::RedirectTemporary => self.redirect_temporary,
            VisitType::Download => self.download,
            VisitType::FramedLink => self.framed_link,
            VisitType::Reload => self.reload,
            VisitType::UpdatePlace => self.update_place,
        }
    }

    pub fn insert(&mut self, t: VisitType)
        ensures
            *final(self) == old(self).spec_insert(t),
            forall|u: VisitType|
                final(self).spec_contains(u) == (u == t || old(self).spec_contains(u)),
    {
        match t {
            VisitType::Link => self.link = true,
            VisitType::Typed => self.typed = true,
            VisitType::Bookmark => self.bookmark = true,
            VisitType::Embed => self.embed = true,
            VisitType::RedirectPermanent => self.redirect_permanent = true,
            VisitType::RedirectTemporary => self.redirect_temporary = true,
            VisitType::Download => self.download = true,
            VisitType::FramedLink => self.framed_link = true,
            VisitType::Reload => self.reload = true,
            VisitType::UpdatePlace => self.update_place = true,
        }
    }

    /// The set of exactly the given visit types.
    pub fn for_specific(types: &[VisitType]) -> (r: VisitTransitionSet)
        ensures
            r == Self::spec_for_prefix(types@, types@.len()),
            forall|t: VisitType| r.spec_contains(t) == types@.contains(t),
    {
        let mut result = VisitTransitionSet::empty();
        let mut i: usize = 0;
        while i < types.len()
            invariant
                i <= types.len(),
                result == Self::spec_for_prefix(types@, i as nat),
                forall|t: VisitType|
                    result.spec_contains(t) == (exists|j: int| 0 <= j < i && types@[j] == t),
            decreases types.len() - i,
        {
            let ghost before = result;
            result.insert(types[i]);
            proof {
                assert forall|t: VisitType|
                    result.spec_contains(t) == (exists|j: int| 0 <= j < i + 1 && types@[j] == t) by {
                    if result.spec_contains(t) {
                        if t == types@[i as int] {
                        } else {
                            let j = choose|j: int| 0 <= j < i && types@[j] == t;
                            assert(0 <= j < i + 1 && types@[j] == t);
                        }
                    }
                }
            }
            i += 1;
        }
        result
    }

    /// The set of every visit type that `self` does not hold.
    pub fn complement(&self) -> (r: VisitTransitionSet)
        ensures
            forall|t: VisitType| r.spec_contains(t) == !self.spec_contains(t),
    {
        VisitTransitionSet {
            link: !self.link,
            typed: !self.typed,
            bookmark: !self.bookmark,
            embed: !self.embed,
            redirect_permanent: !self.redirect_permanent,
            redirect_temporary: !self.redirect_temporary,
            download: !self.download,
            framed_link: !self.framed_link,
            reload: !self.reload,
            update_place: !self.update_place,
        }
    }

    pub fn is_empty(&self) -> (r: bool)
        ensures
            r == (forall|t: VisitType| !self.spec_contains(t)),
    {
        let r = !self.link && !self.typed && !self.bookmark && !self.embed
            && !self.redirect_permanent && !self.redirect_temporary && !self.download
            && !self.framed_link && !self.reload && !self.update_place;
        proof {
            if !r {
                assert(self.spec_contains(VisitType::Link) || self.spec_contains(VisitType::Typed)
                    || self.spec_contains(VisitType::Bookmark) || self.spec_contains(
                    VisitType::Embed,
                ) || self.spec_contains(VisitType::RedirectPermanent) || self.spec_contains(
                    VisitType::RedirectTemporary,
                ) || self.spec_contains(VisitType::Download) || self.spec_contains(
                    VisitType::FramedLink,
                ) || self.spec_contains(VisitType::Reload) || self.spec_contains(
                    VisitType::UpdatePlace,
                ));
            }
        }
        r
    }
}

} // verus!
