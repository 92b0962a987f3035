use crate::config::Config;
use crate::error::IpcError;
use crate::kind::MessageKind;
use crate::message::{decodes_to, logical_name, oversized, Message};
use crate::names::{classify, join_path, joined, kind_of_name, limit_of, FILE_SIZE_MAX, TEXT_SIZE_MAX};
use vstd::prelude::*;
use vstd::string::*;

verus! {

/// One member of a listing of the mailbox directory.
#[derive(Clone, Debug)]
pub struct DirEntry {
    /// The member's file name; `None` where it is not valid Unicode.
    pub name: Option<String>,
    /// Whether the member is a regular file.
    pub is_file: bool,
}

/// The protocol sees a listed member: a regular file with a recognized name.
pub open spec fn visible(e: DirEntry) -> bool {
    &&& e.is_file
    &&& e.name is Some
    &&& kind_of_name(e.name->0@) is Some
}

/// The names of the visible members of a listing, in listing order.
pub open spec fn visible_names(listing: Seq<DirEntry>) -> Seq<Seq<char>>
    decreases listing.len(),
{
    if listing.len() == 0 {
        Seq::empty()
    } else {
        let prev = visible_names(listing.drop_last());
        let e = listing.last();
        if visible(e) {
            prev.push(e.name->0@)
        } else {
            prev
        }
    }
}

/// The cache after a poll with `listing` as the directory's members: a
/// non-empty cache stays as it is, an empty one is refilled.
pub open spec fn scanned(backlog: Seq<Seq<char>>, listing: Seq<DirEntry>) -> Seq<Seq<char>> {
    if backlog.len() > 0 {
        backlog
    } else {
        visible_names(listing)
    }
}

/// The cache after the current entry was completed.
pub open spec fn completed(backlog: Seq<Seq<char>>) -> Seq<Seq<char>> {
    if backlog.len() > 0 {
        backlog.drop_first()
    } else {
        backlog
    }
}

/// The consumer side of a mailbox: a cache of the pending entries found by
/// the last scan of the directory, the first of which is current.
#[derive(Debug)]
pub struct IpcServer {
    ipc_path: String,
    pending: Vec<String>,
}

impl IpcServer {
    /// The mailbox directory.
    pub closed spec fn dir(&self) -> Seq<char> {
        self.ipc_path@
    }

    /// The file names of the cached entries, current first.
    pub closed spec fn backlog(&self) -> Seq<Seq<char>> {
        self.pending@.map_values(|s: String| s@)
    }

    /// Every cached entry has a recognized name.
    pub closed spec fn wf(&self) -> bool {
        forall|i: int| 0 <= i < self.backlog().len() ==> (#[trigger] kind_of_name(self.backlog()[i])) is Some
    }

    /// Creates a consumer for the configured mailbox from a first listing of
    /// its directory: the cache holds the listing's visible members.
    pub fn new(config: &Config, listing: &Vec<DirEntry>) -> (r: IpcServer)
        ensures
            r.wf(),
            r.dir() == config.IPC_PATH@,
            r.backlog() == visible_names(listing@),
            distinct_names(listing@) ==> r.backlog().no_duplicates(),
    {
        let mut r = IpcServer { ipc_path: config.IPC_PATH.clone(), pending: Vec::new() };
        assert(r.backlog() =~= Seq::<Seq<char>>::empty());
        r.has_message(listing);
        r
    }

    /// The mailbox directory.
    pub fn ipc_path(&self) -> (r: &str)
        ensures
            r@ == self.dir(),
    {
        self.ipc_path.as_str()
    }

    /// The number of cached entries.
    pub fn backlog_len(&self) -> (r: usize)
        ensures
            r == self.backlog().len(),
    {
        self.pending.len()
    }

    /// Whether the cache is empty, so that `has_message` needs a fresh
    /// listing of the directory.
    pub fn needs_scan(&self) -> (r: bool)
        ensures
            r == (self.backlog().len() == 0),
    {
        self.pending.len() == 0
    }

    /// Whether a message is pending. A non-empty cache answers at once and
    /// `listing` is not looked at; an empty cache is replaced by the visible
    /// members of `listing`, in its order.
    pub fn has_message(&mut self, listing: &Vec<DirEntry>) -> (r: bool)
        requires
            old(self).wf(),
        ensures
            final(self).wf(),
            final(self).dir() == old(self).dir(),
            final(self).backlog() == scanned(old(self).backlog(), listing@),
            r == (final(self).backlog().len() > 0),
            old(self).backlog().len() == 0 && distinct_names(listing@) ==> final(self).backlog().no_duplicates(),
    {
        if self.pending.len() > 0 {
            return true;
        }
        let mut found: Vec<String> = Vec::new();
        let mut i: usize = 0;
        while i < listing.len()
            invariant
                i <= listing@.len(),
                found@.map_values(|s: String| s@) == visible_names(listing@.subrange(0, i as int)),
            decreases listing@.len() - i,
        {
            let e = &listing[i];
            proof {
                assert(listing@.subrange(0, i + 1).drop_last() =~= listing@.subrange(0, i as int));
            }
            if e.is_file {
                if let Some(name) = &e.name {
                    if classify(name.as_str()).is_some() {
                        found.push(name.clone());
                    }
                }
            }
            assert(found@.map_values(|s: String| s@) =~= visible_names(listing@.subrange(0, i + 1)));
            i = i + 1;
        }
        assert(listing@.subrange(0, listing@.len() as int) =~= listing@);
        self.pending = found;
        proof {
            lemma_visible_names_recognized(listing@);
            if distinct_names(listing@) {
                lemma_scan_distinct(listing@);
            }
        }
        self.pending.len() > 0
    }

    /// The path of the current entry, the first of the cache.
    pub fn current_path(&self) -> (r: Option<String>)
        ensures
            self.backlog().len() == 0 ==> r is None,
            self.backlog().len() > 0 ==> (r matches Some(p) && p@ == joined(self.dir(), self.backlog()[0])),
    {
        if self.pending.len() == 0 {
            None
        } else {
            Some(join_path(self.ipc_path.as_str(), self.pending[0].as_str()))
        }
    }

    /// Checks the size of the current entry against its kind's bound, and
    /// gives the number of bytes to read.
    pub fn check_size(&self, len: u64) -> (r: Result<usize, IpcError>)
        requires
            self.wf(),
        ensures
            self.backlog().len() == 0 ==> r == Err::<usize, IpcError>(IpcError::NotFound),
            self.backlog().len() > 0 && oversized(self.backlog()[0], len as int)
                ==> r == Err::<usize, IpcError>(IpcError::ResourceExceeded),
            self.backlog().len() > 0 && !oversized(self.backlog()[0], len as int)
                ==> r == Ok::<usize, IpcError>(len as usize),
    {
        if self.pending.len() == 0 {
            return Err(IpcError::NotFound);
        }
        let limit = self.current_limit();
        if len > limit as u64 {
            Err(IpcError::ResourceExceeded)
        } else {
            Ok(len as usize)
        }
    }

    fn current_limit(&self) -> (r: usize)
        requires
            self.wf(),
            self.backlog().len() > 0,
        ensures
            r == limit_of(kind_of_name(self.backlog()[0])->0),
    {
        assert(self.backlog()[0] == self.pending@[0]@);
        match classify(self.pending[0].as_str()) {
            Some(MessageKind::Raw) => FILE_SIZE_MAX,
            _ => TEXT_SIZE_MAX,
        }
    }

    /// Decodes the current entry from its contents. An entry over its kind's
    /// bound is refused and stays current, so that every later call meets it
    /// again.
    pub fn next_message(&self, contents: Vec<u8>) -> (r: Result<Message, IpcError>)
        requires
            self.wf(),
        ensures
            self.backlog().len() == 0 ==> r == Err::<Message, IpcError>(IpcError::NotFound),
            self.backlog().len() > 0 && oversized(self.backlog()[0], contents@.len() as int)
                ==> r == Err::<Message, IpcError>(IpcError::ResourceExceeded),
            self.backlog().len() > 0 && !oversized(self.backlog()[0], contents@.len() as int)
                ==> (r matches Ok(m) && decodes_to(self.backlog()[0], contents@, m)),
    {
        if self.pending.len() == 0 {
            return Err(IpcError::NotFound);
        }
        if contents.len() > self.current_limit() {
            return Err(IpcError::ResourceExceeded);
        }
        let name = self.pending[0].as_str();
        assert(self.backlog()[0] == name@);
        match classify(name) {
            Some(MessageKind::Plaintext) => Ok(Message::Plaintext { text: contents }),
            Some(MessageKind::Markdown) => Ok(Message::Markdown { markdown: contents }),
            _ => {
                proof {
                    lemma_recognized_len(name@);
                }
                let n = name.unicode_len();
                let stem = name.substring_char(0, n - 4);
                Ok(Message::Raw { name: String::from_str(stem), contents })
            },
        }
    }

    /// Marks the current entry as delivered: it leaves the cache. The caller
    /// deletes its file first, and calls this only once that succeeded.
    pub fn complete_message(&mut self) -> (r: Result<(), IpcError>)
        requires
            old(self).wf(),
        ensures
            final(self).wf(),
            final(self).dir() == old(self).dir(),
            final(self).backlog() == completed(old(self).backlog()),
            old(self).backlog().no_duplicates() ==> final(self).backlog().no_duplicates(),
            old(self).backlog().len() == 0 ==> r == Err::<(), IpcError>(IpcError::NotFound),
            old(self).backlog().len() > 0 ==> r is Ok,
    {
        if self.pending.len() == 0 {
            return Err(IpcError::NotFound);
        }
        self.pending.remove(0);
        assert(self.backlog() =~= old(self).backlog().drop_first());
        assert forall|i: int| 0 <= i < self.backlog().len() implies (#[trigger] kind_of_name(self.backlog()[i])) is Some by {
            assert(self.backlog()[i] == old(self).backlog()[i + 1]);
        }
        Ok(())
    }
}

/// `name` is the name of a visible member of `listing`.
pub open spec fn names_visible_member(listing: Seq<DirEntry>, name: Seq<char>) -> bool {
    exists|j: int| 0 <= j < listing.len() && visible(#[trigger] listing[j]) && listing[j].name->0@ == name
}

/// A scan returns only regular files with an ASCII name and a recognized
/// extension: every name it caches is that of such a listed member. The
/// controller deletes only the current entry, the first of these.
pub proof fn lemma_classification_purity(listing: Seq<DirEntry>)
    ensures
        forall|i: int|
            0 <= i < visible_names(listing).len() ==> names_visible_member(listing, #[trigger] visible_names(listing)[i]),
    decreases listing.len(),
{
    if listing.len() > 0 {
        let prev = listing.drop_last();
        lemma_classification_purity(prev);
        let names = visible_names(listing);
        assert forall|i: int| 0 <= i < names.len() implies names_visible_member(listing, #[trigger] names[i]) by {
            if i < visible_names(prev).len() {
                assert(names_visible_member(prev, visible_names(prev)[i]));
                let j = choose|j: int|
                    0 <= j < prev.len() && visible(#[trigger] prev[j]) && prev[j].name->0@ == visible_names(prev)[i];
                assert(listing[j] == prev[j]);
            } else {
                assert(listing[listing.len() - 1] == listing.last());
            }
        }
    }
}

/// The visible members of `listing` have distinct names, as the members of
/// one directory do.
pub open spec fn distinct_names(listing: Seq<DirEntry>) -> bool {
    forall|i: int, j: int|
        0 <= i < j < listing.len() && visible(#[trigger] listing[i]) && visible(#[trigger] listing[j])
            ==> listing[i].name->0@ != listing[j].name->0@
}

/// The members of a directory have distinct names, and so have the entries
/// of a scan of it.
pub proof fn lemma_scan_distinct(listing: Seq<DirEntry>)
    requires
        distinct_names(listing),
    ensures
        visible_names(listing).no_duplicates(),
    decreases listing.len(),
{
    if listing.len() > 0 {
        let prev = listing.drop_last();
        assert forall|i: int, j: int|
            0 <= i < j < prev.len() && visible(#[trigger] prev[i]) && visible(#[trigger] prev[j])
                implies prev[i].name->0@ != prev[j].name->0@ by {
            assert(prev[i] == listing[i] && prev[j] == listing[j]);
        }
        lemma_scan_distinct(prev);
        lemma_classification_purity(prev);
        let e = listing.last();
        if visible(e) {
            let names = visible_names(prev);
            assert forall|k: int| 0 <= k < names.len() implies names[k] != e.name->0@ by {
                assert(names_visible_member(prev, names[k]));
                let j = choose|j: int|
                    0 <= j < prev.len() && visible(#[trigger] prev[j]) && prev[j].name->0@ == names[k];
                assert(prev[j] == listing[j]);
                assert(listing[listing.len() - 1] == e);
            }
            assert(visible_names(listing) == names.push(e.name->0@));
            assert forall|a: int, b: int|
                0 <= a < b < names.len() + 1 implies #[trigger] visible_names(listing)[a] != #[trigger] visible_names(listing)[b] by {
                if b == names.len() {
                    assert(visible_names(listing)[a] == names[a]);
                }
            }
        }
    }
}

/// Completing the current entry removes it, and only it, from the cache: a
/// later poll yields the remaining entries, or a fresh scan once none remain;
/// where the cached names are distinct the completed one is gone for good.
pub proof fn lemma_exactly_once(backlog: Seq<Seq<char>>, listing: Seq<DirEntry>)
    requires
        backlog.len() > 0,
    ensures
        completed(backlog) == backlog.drop_first(),
        backlog.len() > 1 ==> scanned(completed(backlog), listing) == backlog.drop_first(),
        backlog.len() == 1 ==> scanned(completed(backlog), listing) == visible_names(listing),
        backlog.no_duplicates() ==> !completed(backlog).contains(backlog[0]),
{
    if backlog.no_duplicates() && completed(backlog).contains(backlog[0]) {
        let k = choose|k: int| 0 <= k < completed(backlog).len() && completed(backlog)[k] == backlog[0];
        assert(backlog[k + 1] == backlog[0]);
    }
}

/// An oversized current entry stalls the consumer: polling again keeps it
/// current, and it is refused again.
pub proof fn lemma_oversized_stalls(backlog: Seq<Seq<char>>, listing: Seq<DirEntry>, len: int)
    requires
        backlog.len() > 0,
        oversized(backlog[0], len),
    ensures
        scanned(backlog, listing) == backlog,
        scanned(backlog, listing)[0] == backlog[0],
        oversized(scanned(backlog, listing)[0], len),
{
}

proof fn lemma_visible_names_recognized(listing: Seq<DirEntry>)
    ensures
        forall|i: int| 0 <= i < visible_names(listing).len() ==> (#[trigger] kind_of_name(visible_names(listing)[i])) is Some,
    decreases listing.len(),
{
    if listing.len() > 0 {
        lemma_visible_names_recognized(listing.drop_last());
    }
}

/// A recognized name is at least one character, a dot and three characters
/// long when its kind is raw.
proof fn lemma_recognized_len(name: Seq<char>)
    requires
        kind_of_name(name) == Some(MessageKind::Raw),
    ensures
        name.len() >= 5,
{
    reveal_strlit("raw");
    crate::names::lemma_last_dot_bound(name, name.len());
}

} // verus!
