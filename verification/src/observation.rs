//! A visit observation: what the browser reports when a page is visited or
//! when something about a page becomes known.

use crate::store::opt_text;
use crate::types::{Timestamp, VisitType};
use vstd::prelude::*;

verus! {

/// One observation of a URL. Only the URL is required; a visit is recorded
/// when a visit type is given.
#[derive(Debug)]
pub struct VisitObservation {
    pub url: String,
    pub title: Option<String>,
    pub visit_type: Option<VisitType>,
    pub is_error: Option<bool>,
    pub is_redirect_source: Option<bool>,
    pub at: Option<Timestamp>,
    pub referrer: Option<String>,
    pub is_remote: Option<bool>,
    pub preview_image_url: Option<String>,
}

/// An observation as plain values.
pub struct ObservationView {
    pub url: Seq<char>,
    pub title: Option<Seq<char>>,
    pub visit_type: Option<VisitType>,
    pub is_error: Option<bool>,
    pub is_redirect_source: Option<bool>,
    pub at: Option<u64>,
    pub referrer: Option<Seq<char>>,
    pub is_remote: Option<bool>,
    pub preview_image_url: Option<Seq<char>>,
}

impl ObservationView {
    /// The observation of `url` that says nothing else.
    pub open spec fn of_url(url: Seq<char>) -> ObservationView {
        ObservationView {
            url,
            title: None,
            visit_type: None,
            is_error: None,
            is_redirect_source: None,
            at: None,
            referrer: None,
            is_remote: None,
            preview_image_url: None,
        }
    }

    /// True when the visit lifts the frecency of the page it redirects
    /// from: it is a redirect source and was not typed.
    pub open spec fn redirect_frecency_boost(self) -> bool {
        self.is_redirect_source is Some && self.visit_type != Some(VisitType::Typed)
    }

    /// True when the visit does not by itself show a place to the user: a
    /// redirect source, a framed link or an embedded visit.
    pub open spec fn is_hidden(self) -> bool {
        match self.visit_type {
            Some(t) => self.is_redirect_source is Some || t == VisitType::FramedLink || t
                == VisitType::Embed,
            None => false,
        }
    }
}

impl View for VisitObservation {
    type V = ObservationView;

    open spec fn view(&self) -> ObservationView {
        ObservationView {
            url: self.url@,
            title: opt_text(self.title),
            visit_type: self.visit_type,
            is_error: self.is_error,
            is_redirect_source: self.is_redirect_source,
            at: match self.at {
                Some(t) => Some(t.0),
                None => None,
            },
            referrer: opt_text(self.referrer),
            is_remote: self.is_remote,
            preview_image_url: opt_text(self.preview_image_url),
        }
    }
}

impl VisitObservation {
    pub fn new(url: String) -> (r: VisitObservation)
        ensures
            r@ == ObservationView::of_url(url@),
    {
        VisitObservation {
            url,
            title: None,
            visit_type: None,
            is_error: None,
            is_redirect_source: None,
            at: None,
            referrer: None,
            is_remote: None,
            preview_image_url: None,
        }
    }

    pub fn with_title(self, title: Option<String>) -> (r: VisitObservation)
        ensures
            r@ == (ObservationView { title: opt_text(title), ..self@ }),
    {
        let mut r = self;
        r.title = title;
        r
    }

    pub fn with_visit_type(self, visit_type: Option<VisitType>) -> (r: VisitObservation)
        ensures
            r@ == (ObservationView { visit_type, ..self@ }),
    {
        let mut r = self;
        r.visit_type = visit_type;
        r
    }

    pub fn with_is_error(self, is_error: Option<bool>) -> (r: VisitObservation)
        ensures
            r@ == (ObservationView { is_error, ..self@ }),
    {
        let mut r = self;
        r.is_error = is_error;
        r
    }

    pub fn with_is_redirect_source(self, is_redirect_source: Option<bool>) -> (r: VisitObservation)
        ensures
            r@ == (ObservationView { is_redirect_source, ..self@ }),
    {
        let mut r = self;
        r.is_redirect_source = is_redirect_source;
        r
    }

    pub fn with_at(self, at: Option<Timestamp>) -> (r: VisitObservation)
        ensures
            r@ == (ObservationView {
                at: match at {
                    Some(t) => Some(t.0),
                    None => None,
                },
                ..self@
            }),
    {
        let mut r = self;
        r.at = at;
        r
    }

    pub fn with_is_remote(self, is_remote: Option<bool>) -> (r: VisitObservation)
        ensures
            r@ == (ObservationView { is_remote, ..self@ }),
    {
        let mut r = self;
        r.is_remote = is_remote;
        r
    }

    pub fn with_referrer(self, referrer: Option<String>) -> (r: VisitObservation)
        ensures
            r@ == (ObservationView { referrer: opt_text(referrer), ..self@ }),
    {
        let mut r = self;
        r.referrer = referrer;
        r
    }

    pub fn with_preview_image_url(self, preview_image_url: Option<String>) -> (r: VisitObservation)
        ensures
            r@ == (ObservationView { preview_image_url: opt_text(preview_image_url), ..self@ }),
    {
        let mut r = self;
        r.preview_image_url = preview_image_url;
        r
    }

    pub fn get_redirect_frecency_boost(&self) -> (r: bool)
        ensures
            r == self@.redirect_frecency_boost(),
    {
        self.is_redirect_source.is_some() && match self.visit_type {
            Some(t) => match t {
                VisitType::Typed => false,
                _ => true,
            },
            None => true,
        }
    }

    pub fn get_is_hidden(&self) -> (r: bool)
        ensures
            r == self@.is_hidden(),
    {
        match self.visit_type {
            Some(t) => self.is_redirect_source.is_some() || match t {
                VisitType::FramedLink => true,
                VisitType::Embed => true,
                _ => false,
            },
            None => false,
        }
    }
}

} // verus!
