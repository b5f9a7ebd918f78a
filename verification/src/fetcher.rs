//! Where the bytes of a resource come from.
//!
//! A connection handler asks a [`ResourceFetcher`] for the home resource or
//! for the resource that a selector names, and does not know how the fetcher
//! comes by them. [`FileDirFetcher`] describes the fetcher that serves the
//! files of one directory. Its home resource is a file configured on its own:
//! it is read as it is and need not lie in the served directory, while every
//! selector is confined to that directory.

use vstd::prelude::*;
use crate::bytes::append_bytes;
use crate::error::GopherError;
use crate::error::outcome_view;
use crate::path::candidate;
use crate::path::candidate_path;
use crate::path::is_confined;
use crate::path::resolve_path;
use crate::path::resolved;

verus! {

/// A source of resources, with two operations: the home resource, and the
/// resource that a selector names.
///
/// What a fetcher gives depends on what it reads, so nothing is said here of
/// its results but that an implementation may state which ones are possible.
pub trait ResourceFetcher: Clone + core::fmt::Debug + Send + Sync + 'static {
    /// Whether `outcome` is a result that this fetcher may give for `selector`.
    /// A fetcher that says nothing of itself may give any.
    open spec fn may_fetch_resource(
        &self,
        selector: Seq<u8>,
        outcome: Result<Seq<u8>, GopherError>,
    ) -> bool {
        true
    }

    /// Whether `outcome` is a result that this fetcher may give for the home
    /// resource. A fetcher that says nothing of itself may give any.
    open spec fn may_fetch_home(&self, outcome: Result<Seq<u8>, GopherError>) -> bool {
        true
    }

    /// Fetches the resource that `selector` names.
    fn fetch_resource(&self, selector: &[u8]) -> (outcome: Result<Vec<u8>, GopherError>)
        ensures
            self.may_fetch_resource(selector@, outcome_view(outcome)),
    ;

    /// Fetches the home resource.
    fn fetch_home(&self) -> (outcome: Result<Vec<u8>, GopherError>)
        ensures
            self.may_fetch_home(outcome_view(outcome)),
    ;
}

/// Whether `outcome` is a result that `fetcher` may give for a request with
/// `selector`: the empty selector asks for the home resource, any other for
/// the resource that it names.
pub open spec fn may_fetch<R: ResourceFetcher>(
    fetcher: &R,
    selector: Seq<u8>,
    outcome: Result<Seq<u8>, GopherError>,
) -> bool {
    if selector.len() == 0 {
        fetcher.may_fetch_home(outcome)
    } else {
        fetcher.may_fetch_resource(selector, outcome)
    }
}

/// Fetches what a request with `selector` asks for: the home resource for the
/// empty selector, else the resource that the selector names.
pub fn fetch<R: ResourceFetcher>(fetcher: &R, selector: &[u8]) -> (outcome: Result<
    Vec<u8>,
    GopherError,
>)
    ensures
        may_fetch(fetcher, selector@, outcome_view(outcome)),
        selector@.len() == 0 ==> fetcher.may_fetch_home(outcome_view(outcome)),
        selector@.len() > 0 ==> fetcher.may_fetch_resource(selector@, outcome_view(outcome)),
{
    if selector.len() == 0 {
        fetcher.fetch_home()
    } else {
        fetcher.fetch_resource(selector)
    }
}

/// A fetcher's two paths as mathematical values.
pub struct FileDirModel {
    /// The canonical path of the served directory.
    pub dir: Seq<u8>,
    /// The canonical path of the file that is the home resource.
    pub index_file: Seq<u8>,
}

/// The fetcher that serves the files of one directory: which file answers
/// which request. Reading the files is left to the caller.
#[derive(Clone, Debug, PartialEq, Eq)]
pub struct FileDirFetcher {
    dir: Vec<u8>,
    index_file: Vec<u8>,
}

impl View for FileDirFetcher {
    type V = FileDirModel;

    closed spec fn view(&self) -> FileDirModel {
        FileDirModel { dir: self.dir@, index_file: self.index_file@ }
    }
}

impl FileDirFetcher {
    /// A fetcher for the directory `dir` with the home resource `index_file`,
    /// both given by their canonical paths.
    pub fn new(dir: &[u8], index_file: &[u8]) -> (fetcher: FileDirFetcher)
        ensures
            fetcher@.dir == dir@,
            fetcher@.index_file == index_file@,
    {
        let mut own_dir: Vec<u8> = Vec::new();
        append_bytes(&mut own_dir, dir);
        let mut own_index: Vec<u8> = Vec::new();
        append_bytes(&mut own_index, index_file);
        FileDirFetcher { dir: own_dir, index_file: own_index }
    }

    /// The canonical path of the served directory.
    pub fn dir(&self) -> (dir: &[u8])
        ensures
            dir@ == self@.dir,
    {
        self.dir.as_slice()
    }

    /// The file to read for the home resource.
    pub fn index_file(&self) -> (index_file: &[u8])
        ensures
            index_file@ == self@.index_file,
    {
        self.index_file.as_slice()
    }

    /// The path that `selector` names in the served directory, to be made
    /// canonical by the caller.
    pub fn resource_candidate(&self, selector: &[u8]) -> (path: Vec<u8>)
        ensures
            path@ == candidate(self@.dir, selector@),
    {
        candidate_path(self.dir.as_slice(), selector)
    }

    /// The file to read for a selector, given the canonical form of its
    /// candidate: that path if it lies in the served directory,
    /// `PermissionDenied` if it does not, and the failure to make the
    /// candidate canonical if there was one.
    pub fn resource_file(&self, canonical: Result<Vec<u8>, GopherError>) -> (path: Result<
        Vec<u8>,
        GopherError,
    >)
        ensures
            outcome_view(path) == resolved(self@.dir, outcome_view(canonical)),
            outcome_view(path) matches Ok(inside) ==> is_confined(self@.dir, inside),
    {
        resolve_path(self.dir.as_slice(), canonical)
    }
}

} // verus!
