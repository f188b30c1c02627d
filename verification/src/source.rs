//! Which files form the book, and in which order.

use crate::path::{extension, file_extension};
use crate::error::{ErrorKind, PapyrusError};
use crate::order::{is_sorted, sort_texts};
use crate::text::{text_eq, texts};
use vstd::prelude::*;

verus! {

/// A path with what was found of it on disk.
#[derive(Debug, PartialEq, Eq)]
pub struct Candidate {
    pub path: String,
    /// For a listed file: whether it exists. For an entry found below the
    /// content directory: whether it is a regular file.
    pub present: bool,
}

/// A candidate as plain values.
pub ghost struct CandidateView {
    pub path: Seq<char>,
    pub present: bool,
}

impl View for Candidate {
    type V = CandidateView;

    open spec fn view(&self) -> CandidateView {
        CandidateView { path: self.path@, present: self.present }
    }
}

/// The candidates of a list as plain values.
pub open spec fn candidate_views(candidates: Seq<Candidate>) -> Seq<CandidateView> {
    candidates.map_values(|c: Candidate| c@)
}

/// What was found of the book's sources.
#[derive(Debug, PartialEq, Eq)]
pub enum Sources {
    /// The content directory does not exist.
    Missing,
    /// The files that the configuration lists, in its order, each at its
    /// place below the content directory.
    Listed(Vec<Candidate>),
    /// Everything found below the content directory, in whatever order
    /// the directories gave it.
    Walked(Vec<Candidate>),
}

/// The extension of a chapter file.
pub const MARKDOWN_EXTENSION: &'static str = "md";

/// The words for a content directory that does not exist, before its path.
pub const CONTENT_MISSING: &'static str = "Content directory does not exist: ";

/// Whether a path names a Markdown file: its extension is `md`.
pub open spec fn is_markdown(path: Seq<char>) -> bool {
    extension(path) == Some(MARKDOWN_EXTENSION@)
}

/// The listed files that exist, in the order of the list.
pub open spec fn listed_paths(candidates: Seq<CandidateView>) -> Seq<Seq<char>> {
    candidates.filter(|c: CandidateView| c.present).map_values(|c: CandidateView| c.path)
}

/// The Markdown files among what was found, in the order in which they
/// were found.
pub open spec fn markdown_paths(candidates: Seq<CandidateView>) -> Seq<Seq<char>> {
    candidates.filter(|c: CandidateView| c.present && is_markdown(c.path)).map_values(
        |c: CandidateView| c.path,
    )
}

/// Whether a path names a Markdown file.
pub fn has_markdown_extension(path: &str) -> (markdown: bool)
    ensures
        markdown == is_markdown(path@),
{
    match file_extension(path) {
        Some(ext) => text_eq(ext.as_str(), MARKDOWN_EXTENSION),
        None => false,
    }
}

/// The listed files that exist, in the order of the list.
pub fn select_listed(candidates: &Vec<Candidate>) -> (paths: Vec<String>)
    ensures
        texts(paths@) == listed_paths(candidate_views(candidates@)),
{
    let ghost all = candidate_views(candidates@);
    let ghost keep = |c: CandidateView| c.present;
    let ghost path = |c: CandidateView| c.path;
    let mut paths: Vec<String> = Vec::new();
    let mut i: usize = 0;
    proof {
        assert(all.take(0) =~= Seq::<CandidateView>::empty());
        reveal(Seq::filter);
        assert(texts(paths@) =~= all.take(0).filter(keep).map_values(path));
    }
    while i < candidates.len()
        invariant
            i <= candidates.len(),
            all == candidate_views(candidates@),
            keep == |c: CandidateView| c.present,
            path == |c: CandidateView| c.path,
            texts(paths@) == all.take(i as int).filter(keep).map_values(path),
        decreases candidates.len() - i,
    {
        let ghost before = texts(paths@);
        proof {
            assert(all.take(i + 1) =~= all.take(i as int).push(all[i as int]));
            all.take(i as int).lemma_filter_push(all[i as int], keep);
        }
        if candidates[i].present {
            paths.push(candidates[i].path.clone());
            assert(texts(paths@) =~= before.push(all[i as int].path));
            assert(all.take(i as int).filter(keep).push(all[i as int]).map_values(path)
                =~= before.push(all[i as int].path));
        }
        i += 1;
    }
    assert(all.take(candidates.len() as int) =~= all);
    paths
}

/// The Markdown files among what was found, in the order in which they
/// were found.
pub fn select_markdown(candidates: &Vec<Candidate>) -> (paths: Vec<String>)
    ensures
        texts(paths@) == markdown_paths(candidate_views(candidates@)),
{
    let ghost all = candidate_views(candidates@);
    let ghost keep = |c: CandidateView| c.present && is_markdown(c.path);
    let ghost path = |c: CandidateView| c.path;
    let mut paths: Vec<String> = Vec::new();
    let mut i: usize = 0;
    proof {
        assert(all.take(0) =~= Seq::<CandidateView>::empty());
        reveal(Seq::filter);
        assert(texts(paths@) =~= all.take(0).filter(keep).map_values(path));
    }
    while i < candidates.len()
        invariant
            i <= candidates.len(),
            all == candidate_views(candidates@),
            keep == |c: CandidateView| c.present && is_markdown(c.path),
            path == |c: CandidateView| c.path,
            texts(paths@) == all.take(i as int).filter(keep).map_values(path),
        decreases candidates.len() - i,
    {
        let ghost before = texts(paths@);
        proof {
            assert(all.take(i + 1) =~= all.take(i as int).push(all[i as int]));
            all.take(i as int).lemma_filter_push(all[i as int], keep);
        }
        if candidates[i].present && has_markdown_extension(candidates[i].path.as_str()) {
            paths.push(candidates[i].path.clone());
            assert(texts(paths@) =~= before.push(all[i as int].path));
            assert(all.take(i as int).filter(keep).push(all[i as int]).map_values(path)
                =~= before.push(all[i as int].path));
        }
        i += 1;
    }
    assert(all.take(candidates.len() as int) =~= all);
    paths
}

/// The files that form the book, in reading order.
///
/// With a list in the configuration these are the listed files that exist,
/// in the order of the list. Without one they are the Markdown files found
/// below the content directory, in dictionary order of their paths. A
/// content directory that does not exist is an asset error.
pub fn collect_markdown_files(content_dir: &str, sources: &Sources) -> (files: Result<
    Vec<String>,
    PapyrusError,
>)
    ensures
        match sources {
            Sources::Missing => files matches Err(error) && error@.kind == ErrorKind::Asset
                && error@.detail == CONTENT_MISSING@ + content_dir@,
            Sources::Listed(candidates) => files matches Ok(paths) && texts(paths@)
                == listed_paths(candidate_views(candidates@)),
            Sources::Walked(candidates) => files matches Ok(paths) && is_sorted(texts(paths@))
                && texts(paths@).to_multiset() == markdown_paths(
                candidate_views(candidates@),
            ).to_multiset(),
        },
{
    match sources {
        Sources::Missing => Err(
            PapyrusError::Asset(String::from_str(CONTENT_MISSING).concat(content_dir)),
        ),
        Sources::Listed(candidates) => Ok(select_listed(candidates)),
        Sources::Walked(candidates) => {
            let found = select_markdown(candidates);
            Ok(sort_texts(&found))
        },
    }
}

} // verus!
