//! The registry: the ordered list of discovered paths.
//!
//! The position of a path in the registry is the key by which an edited line
//! finds the path it replaces. The registry only grows, at its end, so a
//! position once given never changes.

use vstd::prelude::*;
use crate::text::{all_single_line, join_lines, joined, law_split_undoes_join, lines_of, texts};

verus! {

/// What a walk of the directory tree reports of one entry.
#[derive(Debug, PartialEq, Eq)]
pub enum Found {
    /// The entry could not be read.
    Unreadable,
    /// The entry's path is not valid UTF-8; `shown` is a readable rendering.
    NotUtf8 { shown: String },
    /// The entry's path.
    Path(String),
}

/// The fatal condition of a walk: a path that the editable list cannot hold.
#[derive(Debug, PartialEq, Eq)]
pub struct NotUtf8Error {
    /// A readable rendering of the offending path.
    pub shown: String,
}

/// The ordered list of discovered paths, indexed from zero.
pub struct Registry {
    paths: Vec<String>,
}

impl View for Registry {
    type V = Seq<Seq<char>>;

    closed spec fn view(&self) -> Seq<Seq<char>> {
        texts(self.paths@)
    }
}

/// The registry that results from reporting `found` to a registry holding
/// `paths`: a readable UTF-8 path goes to the end, anything else changes
/// nothing.
pub open spec fn registered(paths: Seq<Seq<char>>, found: Found) -> Seq<Seq<char>> {
    match found {
        Found::Path(path) => paths.push(path@),
        _ => paths,
    }
}

impl Found {
    /// Whether the report ends the walk: a path that is not UTF-8 does, an
    /// unreadable entry does not.
    pub fn is_fatal(&self) -> (fatal: bool)
        ensures
            fatal == (*self is NotUtf8),
    {
        match self {
            Found::NotUtf8 { .. } => true,
            _ => false,
        }
    }
}

/// The readable UTF-8 paths among a stream of reports, in arrival order.
pub open spec fn paths_among(reports: Seq<Found>) -> Seq<Seq<char>>
    decreases reports.len(),
{
    if reports.len() == 0 {
        Seq::empty()
    } else {
        registered(paths_among(reports.drop_last()), reports.last())
    }
}

/// The registry that results from reporting a stream of entries, one after
/// the other, to a registry holding `paths`.
pub open spec fn registered_all(paths: Seq<Seq<char>>, reports: Seq<Found>) -> Seq<Seq<char>>
    decreases reports.len(),
{
    if reports.len() == 0 {
        paths
    } else {
        registered(registered_all(paths, reports.drop_last()), reports.last())
    }
}

impl Registry {
    /// An empty registry.
    pub fn new() -> (registry: Registry)
        ensures
            registry@ == Seq::<Seq<char>>::empty(),
    {
        let registry = Registry { paths: Vec::new() };
        proof {
            assert(registry@ =~= Seq::<Seq<char>>::empty());
        }
        registry
    }

    /// The number of paths.
    pub fn len(&self) -> (n: usize)
        ensures
            n == self@.len(),
    {
        self.paths.len()
    }

    /// Whether the registry holds no path.
    pub fn is_empty(&self) -> (b: bool)
        ensures
            b == (self@.len() == 0),
    {
        self.paths.len() == 0
    }

    /// Appends a path. Every path already present keeps its index.
    pub fn push(&mut self, path: String)
        ensures
            final(self)@ == old(self)@.push(path@),
    {
        proof {
            assert(texts(self.paths@.push(path)) =~= texts(self.paths@).push(path@));
        }
        self.paths.push(path);
    }

    /// The path at an index, or `None` where the index is past the end.
    pub fn get(&self, index: usize) -> (path: Option<&String>)
        ensures
            path is Some == (index < self@.len()),
            path matches Some(p) ==> p@ == self@[index as int],
    {
        if index < self.paths.len() {
            Some(&self.paths[index])
        } else {
            None
        }
    }

    /// Takes in what a walk reports of one entry.
    ///
    /// A readable UTF-8 path is appended. An unreadable entry is skipped and
    /// the walk may go on. A path that is not UTF-8 is fatal: the registry
    /// stays as it was and the error carries the path's rendering.
    pub fn register(&mut self, found: Found) -> (result: Result<(), NotUtf8Error>)
        ensures
            final(self)@ == registered(old(self)@, found),
            result is Err == (found is NotUtf8),
            result matches Err(e) ==> found matches Found::NotUtf8 { shown } && e.shown == shown,
    {
        match found {
            Found::Unreadable => Ok(()),
            Found::NotUtf8 { shown } => Err(NotUtf8Error { shown }),
            Found::Path(path) => {
                self.push(path);
                Ok(())
            },
        }
    }

    /// The registry as text: one path per line, in order, joined by `\n`.
    pub fn serialize(&self) -> (text: String)
        ensures
            text@ == joined(self@),
    {
        join_lines(&self.paths)
    }
}

/// Reading back the text of a registry gives the registry: as many lines as
/// paths, and at every index the path itself. This holds of the empty
/// registry too. It asks that no path holds a `\n` and that the registry is
/// not the single empty path, whose text is that of the empty registry.
pub proof fn law_serialize_keeps_indices(registry: Registry)
    requires
        all_single_line(registry@),
        !(registry@.len() == 1 && registry@[0].len() == 0),
    ensures
        lines_of(joined(registry@)) == registry@,
{
    law_split_undoes_join(registry@);
}

/// A stream of reports leaves in the registry what it held before and, after
/// that, every reported path once and in arrival order: none is dropped, none
/// is repeated, none changes place.
pub proof fn law_stream_registers_each_path_once(paths: Seq<Seq<char>>, reports: Seq<Found>)
    ensures
        registered_all(paths, reports) == paths + paths_among(reports),
    decreases reports.len(),
{
    if reports.len() == 0 {
        assert(paths + paths_among(reports) =~= paths);
    } else {
        law_stream_registers_each_path_once(paths, reports.drop_last());
        assert(registered_all(paths, reports) =~= paths + paths_among(reports));
    }
}

/// A stream made of readable paths alone grows the registry by one path per
/// report, and the path of report `i` stands `i` places after the paths held
/// before.
pub proof fn law_stream_of_paths_keeps_every_index(paths: Seq<Seq<char>>, reports: Seq<Found>)
    requires
        forall|i: int| 0 <= i < reports.len() ==> #[trigger] reports[i] is Path,
    ensures
        registered_all(paths, reports).len() == paths.len() + reports.len(),
        forall|i: int|
            0 <= i < paths.len() ==> #[trigger] registered_all(paths, reports)[i] == paths[i],
        forall|i: int|
            0 <= i < reports.len() ==> registered_all(paths, reports)[paths.len() + i]
                == (#[trigger] reports[i])->Path_0@,
    decreases reports.len(),
{
    if reports.len() > 0 {
        let front = reports.drop_last();
        assert forall|i: int| 0 <= i < front.len() implies #[trigger] front[i] is Path by {
            assert(front[i] == reports[i]);
        }
        law_stream_of_paths_keeps_every_index(paths, front);
        assert(reports.last() == reports[reports.len() - 1]);
        assert forall|i: int| 0 <= i < reports.len() implies registered_all(
            paths,
            reports,
        )[paths.len() + i] == (#[trigger] reports[i])->Path_0@ by {
            if i < front.len() {
                assert(front[i] == reports[i]);
            }
        }
    }
}

/// Reporting entries never drops or reorders what was registered: the paths
/// present before are a prefix of the paths present after, and at most one
/// path is added.
pub proof fn law_register_only_appends(paths: Seq<Seq<char>>, found: Found)
    ensures
        registered(paths, found).len() >= paths.len(),
        registered(paths, found).len() <= paths.len() + 1,
        registered(paths, found).take(paths.len() as int) == paths,
{
    assert(registered(paths, found).take(paths.len() as int) =~= paths);
}

} // verus!
