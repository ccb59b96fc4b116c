//! The walk over a tree of files that are copied into a machine.

use vstd::prelude::*;

use crate::helper::bridge::{BridgeError, BridgeErrorView, MAX_COPY_ENTRIES};
use crate::helper::transfer::{CopyArchive, CopyArchiveView, PreparedCopy, SourceEntry};
use crate::paths::join_path;
use crate::text::sort_texts;

verus! {

/// A file on the host and the name that it gets in an archive.
#[derive(Debug)]
pub struct CopySource {
    pub source: String,
    pub name: String,
}

#[verifier::ext_equal]
pub struct CopySourceView {
    pub source: Seq<char>,
    pub name: Seq<char>,
}

impl View for CopySource {
    type V = CopySourceView;

    open spec fn view(&self) -> CopySourceView {
        CopySourceView { source: self.source@, name: self.name@ }
    }
}

impl CopySourceView {
    /// A file of a directory.
    pub open spec fn child(self, file: Seq<char>) -> CopySourceView {
        CopySourceView {
            source: crate::paths::join_of(self.source, file),
            name: crate::paths::join_of(self.name, file),
        }
    }

    /// The files of a directory, the last one first.
    pub open spec fn children(self, files: Seq<Seq<char>>) -> Seq<CopySourceView> {
        Seq::new(files.len(), |i: int| self.child(files[files.len() - 1 - i]))
    }
}

/// What the walk needs to know next.
#[derive(Debug)]
pub enum WalkRequest {
    /// What stands at the path, without following a link.
    Inspect(String),
    /// The names of the files in the directory at the path.
    List(String),
    Finished,
}

pub enum WalkRequestView {
    Inspect(Seq<char>),
    List(Seq<char>),
    Finished,
}

impl View for WalkRequest {
    type V = WalkRequestView;

    open spec fn view(&self) -> WalkRequestView {
        match self {
            WalkRequest::Inspect(path) => WalkRequestView::Inspect(path@),
            WalkRequest::List(path) => WalkRequestView::List(path@),
            WalkRequest::Finished => WalkRequestView::Finished,
        }
    }
}

/// A walk: the archive so far, the files that wait for their turn with the next one last, and the
/// directory whose files are not known yet.
#[derive(Debug)]
pub struct CopyWalk {
    pub archive: CopyArchive,
    pub waiting: Vec<CopySource>,
    pub listing: Option<CopySource>,
}

#[verifier::ext_equal]
pub struct CopyWalkView {
    pub archive: CopyArchiveView,
    pub waiting: Seq<CopySourceView>,
    pub listing: Option<CopySourceView>,
}

pub open spec fn sources(files: Seq<CopySource>) -> Seq<CopySourceView> {
    Seq::new(files.len(), |i: int| files[i]@)
}

impl View for CopyWalk {
    type V = CopyWalkView;

    open spec fn view(&self) -> CopyWalkView {
        CopyWalkView {
            archive: self.archive@,
            waiting: sources(self.waiting@),
            listing: match self.listing {
                Some(directory) => Some(directory@),
                None => None,
            },
        }
    }
}

impl CopyWalkView {
    /// What the walk asks for, or why it ends.
    pub open spec fn requested(self) -> Result<WalkRequestView, BridgeErrorView> {
        match self.listing {
            Some(directory) => Ok(WalkRequestView::List(directory.source)),
            None => if self.waiting.len() == 0 {
                Ok(WalkRequestView::Finished)
            } else if self.archive.entries >= MAX_COPY_ENTRIES {
                Err(BridgeErrorView::TooManyCopyEntries)
            } else {
                Ok(WalkRequestView::Inspect(self.waiting.last().source))
            },
        }
    }

    /// The walk once the next file is known, or why it ends.  A directory is listed next.
    pub open spec fn taken(self, entry: SourceEntry, mode: u32) -> Result<
        CopyWalkView,
        BridgeErrorView,
    > {
        if self.listing is Some || self.waiting.len() == 0 {
            Ok(self)
        } else {
            let next = self.waiting.last();
            match self.archive.appended(next.source, next.name, entry, mode) {
                Err(error) => Err(error),
                Ok(archive) => Ok(
                    CopyWalkView {
                        archive,
                        waiting: self.waiting.drop_last(),
                        listing: if entry is Directory {
                            Some(next)
                        } else {
                            None
                        },
                    },
                ),
            }
        }
    }

    /// The walk once the files of a directory are known: they come next, in the order of their
    /// names.
    pub open spec fn listed(self, files: Seq<Seq<char>>) -> CopyWalkView {
        match self.listing {
            None => self,
            Some(directory) => CopyWalkView {
                waiting: self.waiting + directory.children(
                    files.sort_by(crate::text::text_order()),
                ),
                listing: None,
                ..self
            },
        }
    }
}

fn push_children(
    waiting: &mut Vec<CopySource>,
    directory: &CopySource,
    files: Vec<String>,
)
    ensures
        sources(final(waiting)@) == sources(old(waiting)@) + directory@.children(
            crate::text::strings(files@),
        ),
{
    let ghost before = sources(waiting@);
    let ghost names = crate::text::strings(files@);
    let mut rest = files;
    assert(sources(waiting@) =~= before + directory@.children(names).take(0));
    while rest.len() > 0
        invariant
            rest@.len() <= names.len(),
            crate::text::strings(rest@) == names.take(rest@.len() as int),
            sources(waiting@) == before + directory@.children(names).take(
                names.len() - rest@.len(),
            ),
        decreases rest@.len(),
    {
        let ghost done = names.len() - rest@.len();
        let ghost left = crate::text::strings(rest@);
        let ghost so_far = sources(waiting@);
        match rest.pop() {
            Some(file) => {
                assert(file@ == left[left.len() - 1]);
                assert(file@ == names[names.len() - 1 - done]);
                let child = CopySource {
                    source: join_path(directory.source.as_str(), file.as_str()),
                    name: join_path(directory.name.as_str(), file.as_str()),
                };
                let ghost child_view = child@;
                waiting.push(child);
                proof {
                    assert(crate::text::strings(rest@) =~= names.take(rest@.len() as int)) by {
                        assert(crate::text::strings(rest@) =~= left.drop_last());
                    }
                    assert(child_view =~= directory@.children(names)[done]);
                    assert(sources(waiting@) =~= so_far.push(child_view));
                    assert(sources(waiting@) =~= before + directory@.children(names).take(
                        done + 1,
                    ));
                }
            },
            None => {},
        }
    }
    assert(directory@.children(names).take(names.len() as int) =~= directory@.children(names));
}

impl CopyWalk {
    /// A walk from a file, which is the root of the archive.
    pub fn begin(source: String, limit: u64) -> (walk: CopyWalk)
        ensures
            walk@ == (CopyWalkView {
                archive: CopyArchiveView { bytes: Seq::empty(), entries: 0, limit },
                waiting: seq![CopySourceView { source: source@, name: "root"@ }],
                listing: None,
            }),
    {
        let ghost given = source@;
        let first = CopySource { source, name: "root".to_owned() };
        let walk = CopyWalk { archive: CopyArchive::new(limit), waiting: vec![first], listing: None };
        assert(walk@.archive.bytes =~= Seq::empty());
        assert(walk@.waiting =~= seq![CopySourceView { source: given, name: "root"@ }]);
        walk
    }

    /// What the walk needs next.
    pub fn request(&self) -> (request: Result<WalkRequest, BridgeError>)
        ensures
            match (request, self@.requested()) {
                (Ok(request), Ok(expected)) => request@ == expected,
                (Err(error), Err(expected)) => error@ == expected,
                _ => false,
            },
    {
        match &self.listing {
            Some(directory) => Ok(WalkRequest::List(directory.source.as_str().to_owned())),
            None => {
                if self.waiting.len() == 0 {
                    return Ok(WalkRequest::Finished);
                }
                if self.archive.entries >= MAX_COPY_ENTRIES {
                    return Err(BridgeError::TooManyCopyEntries);
                }
                let next = &self.waiting[self.waiting.len() - 1];
                Ok(WalkRequest::Inspect(next.source.as_str().to_owned()))
            },
        }
    }

    /// Puts the next file into the archive; one that cannot be put there leaves the walk as it
    /// was.
    pub fn take(&mut self, entry: &SourceEntry, mode: u32) -> (taken: Result<(), BridgeError>)
        ensures
            match (taken, old(self)@.taken(*entry, mode)) {
                (Ok(()), Ok(after)) => final(self)@ == after,
                (Err(error), Err(expected)) => error@ == expected && final(self)@ == old(self)@,
                _ => false,
            },
    {
        let ghost before = self@;
        if self.listing.is_some() || self.waiting.len() == 0 {
            return Ok(());
        }
        let last: usize = self.waiting.len() - 1;
        let appended = self.archive.append_copy_entry(
            self.waiting[last].source.as_str(),
            self.waiting[last].name.as_str(),
            entry,
            mode,
        );
        match appended {
            Err(error) => {
                assert(self@ =~= before);
                Err(error)
            },
            Ok(()) => {
                let next = self.waiting.pop();
                match entry {
                    SourceEntry::Directory => {
                        self.listing = next;
                    },
                    _ => {},
                }
                assert(self@.waiting =~= before.waiting.drop_last());
                Ok(())
            },
        }
    }

    /// Lets the files of a directory wait for their turn.
    pub fn list(&mut self, files: Vec<String>)
        ensures
            final(self)@ == old(self)@.listed(crate::text::strings(files@)),
    {
        match self.listing.take() {
            None => {},
            Some(directory) => {
                let sorted = sort_texts(files);
                push_children(&mut self.waiting, &directory, sorted);
            },
        }
    }

    /// Ends the archive of a walk that has nothing left to do.
    pub fn finish(self) -> (prepared: Result<PreparedCopy, BridgeError>)
        requires
            self@.requested() == Ok::<WalkRequestView, BridgeErrorView>(WalkRequestView::Finished),
        ensures
            match prepared {
                Ok(copy) => self@.archive.finished() == Ok::<Seq<u8>, BridgeErrorView>(
                    copy.bytes@,
                ) && copy.described(),
                Err(error) => self@.archive.finished() == Err::<Seq<u8>, BridgeErrorView>(error@),
            },
    {
        self.archive.finish()
    }
}

/// The order in which a directory names its files has no part in the archive.
pub proof fn law_listing_order_does_not_matter(
    walk: CopyWalkView,
    files: Seq<Seq<char>>,
    others: Seq<Seq<char>>,
)
    requires
        files.to_multiset() == others.to_multiset(),
    ensures
        walk.listed(files) == walk.listed(others),
{
    let order = crate::text::text_order();
    crate::text::lemma_text_order();
    files.lemma_sort_by_ensures(order);
    others.lemma_sort_by_ensures(order);
    vstd::seq_lib::lemma_sorted_unique(files.sort_by(order), others.sort_by(order), order);
}

/// A file that cannot be copied ends the walk before anything else is looked at, and a link is
/// put into the archive as a link: only directories are listed.
pub proof fn law_only_directories_are_entered(walk: CopyWalkView, entry: SourceEntry, mode: u32)
    requires
        walk.listing is None,
        walk.taken(entry, mode) is Ok,
        walk.waiting.len() > 0,
    ensures
        walk.taken(entry, mode)->Ok_0.listing is Some <==> entry is Directory,
        walk.taken(entry, mode)->Ok_0.waiting == walk.waiting.drop_last(),
        walk.taken(entry, mode)->Ok_0.archive.entries == walk.archive.entries + 1,
{
}

} // verus!
