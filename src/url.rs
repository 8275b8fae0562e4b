//! Locations: a path and whether it lies on the regular file system.

use vstd::prelude::*;
use crate::text::{normal_of, normalize, parent_of, parent_path};

verus! {

/// A location as a value: its path, and whether it is a regular one (on the
/// file system, not inside an archive).
pub struct UrlView {
    pub path: Seq<char>,
    pub regular: bool,
}

/// The parent of a location, of the same kind and in normal form, if its path
/// has one.
pub open spec fn parent_url(u: UrlView) -> Option<UrlView> {
    match parent_of(u.path) {
        Some(p) => Some(UrlView { path: normal_of(p), regular: u.regular }),
        None => None,
    }
}

/// A location, its path held in normal form. Two locations are the same place
/// when their normal paths are equal.
pub struct Url {
    path: String,
    regular: bool,
}

impl View for Url {
    type V = UrlView;

    closed spec fn view(&self) -> UrlView {
        UrlView { path: self.path@, regular: self.regular }
    }
}

impl Url {
    /// A location on the regular file system.
    pub fn regular(path: &str) -> (r: Url)
        ensures
            r@ == (UrlView { path: normal_of(path@), regular: true }),
    {
        Url { path: normalize(path), regular: true }
    }

    /// A location that is not on the regular file system (inside an archive).
    pub fn virtual_(path: &str) -> (r: Url)
        ensures
            r@ == (UrlView { path: normal_of(path@), regular: false }),
    {
        Url { path: normalize(path), regular: false }
    }

    /// The path in normal form, as text.
    pub fn path(&self) -> (r: &str)
        ensures
            r@ == self@.path,
    {
        self.path.as_str()
    }

    /// Whether this location is on the regular file system.
    pub fn is_regular(&self) -> (r: bool)
        ensures
            r == self@.regular,
    {
        self.regular
    }

    /// Whether `self` and `other` are the same place.
    pub fn same_place(&self, other: &Url) -> (r: bool)
        ensures
            r == (self@.path == other@.path),
    {
        self.path == other.path
    }

    /// A copy of this location.
    pub fn duplicate(&self) -> (r: Url)
        ensures
            r@ == self@,
    {
        Url { path: self.path.clone(), regular: self.regular }
    }

    /// The parent location, of the same kind, if the path has one.
    pub fn parent_url(&self) -> (r: Option<Url>)
        ensures
            match r {
                Some(p) => parent_url(self@) == Some(p@),
                None => parent_url(self@) is None,
            },
    {
        match parent_path(self.path.as_str()) {
            Some(p) => Some(Url { path: normalize(p.as_str()), regular: self.regular }),
            None => None,
        }
    }
}

} // verus!
