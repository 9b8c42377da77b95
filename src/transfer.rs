use vstd::prelude::*;

use crate::api::ResourceFormat;

verus! {

/// The position of the last `/` of a path, or -1 where it has none.
pub open spec fn last_slash(p: Seq<char>) -> int
    decreases p.len(),
{
    if p.len() == 0 {
        -1
    } else if p.last() == '/' {
        p.len() - 1
    } else {
        last_slash(p.drop_last())
    }
}

/// The base name of a path: what follows its last `/`.
pub open spec fn base_name(p: Seq<char>) -> Seq<char> {
    p.subrange(last_slash(p) + 1, p.len() as int)
}

/// The directory of a path: what precedes its last `/`; the root where that
/// is the first character, and nothing where the path has no `/`.
pub open spec fn dir_name(p: Seq<char>) -> Seq<char> {
    let i = last_slash(p);
    if i < 0 {
        Seq::empty()
    } else if i == 0 {
        "/"@
    } else {
        p.subrange(0, i)
    }
}

/// Whether a path names a file: its base name is neither empty nor `.` nor `..`.
pub open spec fn names_file(p: Seq<char>) -> bool {
    let b = base_name(p);
    b.len() != 0 && b != "."@ && b != ".."@
}

proof fn lemma_last_slash(p: Seq<char>)
    ensures
        -1 <= last_slash(p) < p.len(),
        last_slash(p) >= 0 ==> p[last_slash(p)] == '/',
        forall|j: int| last_slash(p) < j < p.len() ==> p[j] != '/',
    decreases p.len(),
{
    if p.len() > 0 && p.last() != '/' {
        lemma_last_slash(p.drop_last());
        assert forall|j: int| last_slash(p) < j < p.len() implies p[j] != '/' by {
            if j < p.len() - 1 {
                assert(p[j] == p.drop_last()[j]);
            }
        }
    }
}

/// The directory and the base name of a path that names a file.
pub fn split_file_path(p: &String) -> (r: Option<(String, String)>)
    ensures
        r is None <==> !names_file(p@),
        r matches Some((dir, name)) ==> dir@ == dir_name(p@) && name@ == base_name(p@),
{
    let s = p.as_str();
    let n = s.unicode_len();
    let mut i: usize = n;
    let mut found = false;
    proof {
        lemma_last_slash(p@);
    }
    while i > 0
        invariant_except_break
            !found,
        invariant
            i <= n,
            n == p@.len(),
            s@ == p@,
            forall|j: int| i <= j < n ==> p@[j] != '/',
        ensures
            found ==> i > 0 && p@[i - 1] == '/',
            !found ==> i == 0,
        decreases i,
    {
        if s.get_char(i - 1) == '/' {
            found = true;
            break;
        }
        i = i - 1;
    }
    // `i` is now one past the last slash, or 0 where there is none
    proof {
        lemma_last_slash(p@);
        if found {
            assert(p@[i - 1] == '/');
            assert(last_slash(p@) == i - 1);
        } else {
            assert(last_slash(p@) == -1) by {
                if last_slash(p@) >= 0 {
                    assert(p@[last_slash(p@)] == '/');
                }
            }
        }
    }
    let name = s.substring_char(i, n);
    assert(name@ == base_name(p@));
    proof {
        reveal_strlit(".");
        reveal_strlit("..");
        reveal_strlit("/");
    }
    let nl = name.unicode_len();
    if nl == 0 {
        return None;
    }
    if nl == 1 && name.get_char(0) == '.' {
        assert(name@ =~= "."@);
        return None;
    }
    if nl == 2 && name.get_char(0) == '.' && name.get_char(1) == '.' {
        assert(name@ =~= ".."@);
        return None;
    }
    assert(name@ != "."@ && name@ != ".."@) by {
        if name@ == "."@ {
            assert(name@[0] == '.');
        }
        if name@ == ".."@ {
            assert(name@[0] == '.' && name@[1] == '.');
        }
    }
    let dir = if !found {
        String::new()
    } else if i == 1 {
        String::from_str("/")
    } else {
        String::from_str(s.substring_char(0, i - 1))
    };
    Some((dir, String::from_str(name)))
}

/// Where the archive that a download makes goes in the backend: the path to
/// unpack it at, and, for a bare file, the name of its one entry.
pub struct PutPlan {
    pub remote_path: String,
    pub entry_name: Option<String>,
}

pub open spec fn directory_error_text(p: Seq<char>) -> Seq<char> {
    "Cannot save file into "@ + p + " path. There is a directory"@
}

pub open spec fn invalid_name_text() -> Seq<char> {
    "Invalid filename"@
}

/// Plans a download into the backend at `file_path`. `target_is_dir` is what
/// the backend says of that path: a directory, something else, or nothing
/// there. A bare file may not go where a directory is; that is refused before
/// anything is read or written.
pub fn download_plan(file_path: &String, format: ResourceFormat, target_is_dir: Option<bool>) -> (r:
    Result<PutPlan, String>)
    ensures
        format == ResourceFormat::Tar ==> {
            &&& r matches Ok(plan)
            &&& r->Ok_0.remote_path@ == file_path@
            &&& r->Ok_0.entry_name is None
        },
        format == ResourceFormat::Raw && target_is_dir == Some(true) ==> {
            &&& r matches Err(t)
            &&& r->Err_0@ == directory_error_text(file_path@)
        },
        format == ResourceFormat::Raw && target_is_dir != Some(true) && !names_file(file_path@) ==> {
            &&& r matches Err(t)
            &&& r->Err_0@ == invalid_name_text()
        },
        format == ResourceFormat::Raw && target_is_dir != Some(true) && names_file(file_path@) ==> {
            &&& r matches Ok(plan)
            &&& r->Ok_0.remote_path@ == dir_name(file_path@)
            &&& r->Ok_0.entry_name matches Some(n)
            &&& r->Ok_0.entry_name->Some_0@ == base_name(file_path@)
        },
{
    match format {
        ResourceFormat::Tar => Ok(PutPlan { remote_path: file_path.clone(), entry_name: None }),
        ResourceFormat::Raw => {
            if target_is_dir == Some(true) {
                let mut t = String::from_str("Cannot save file into ");
                t.append(file_path.as_str());
                t.append(" path. There is a directory");
                return Err(t);
            }
            match split_file_path(file_path) {
                None => Err(String::from_str("Invalid filename")),
                Some((dir, name)) => Ok(PutPlan { remote_path: dir, entry_name: Some(name) }),
            }
        },
    }
}

/// What a producer's offer of a chunk came to.
pub enum Offer {
    Accepted,
    Full(Vec<u8>),
    Cancelled,
}

/// Where a transfer stands.
pub enum BridgeStatus {
    Open,
    Finished,
    Failed(String),
}

/// The bounded buffer between a producer of byte chunks and their consumer.
/// It holds at most `capacity` chunks; a producer that finds it full waits,
/// and the first error of either side cancels the transfer.
pub struct ChunkBridge {
    capacity: usize,
    queue: Vec<Vec<u8>>,
    source_done: bool,
    error: Option<String>,
    peak: usize,
    accepted: Ghost<Seq<Seq<u8>>>,
    delivered: Ghost<Seq<Seq<u8>>>,
}

pub open spec fn chunk_views(q: Seq<Vec<u8>>) -> Seq<Seq<u8>> {
    q.map_values(|c: Vec<u8>| c@)
}

impl ChunkBridge {
    pub closed spec fn spec_capacity(&self) -> nat {
        self.capacity as nat
    }

    /// The chunks held now, oldest first.
    pub closed spec fn buffered(&self) -> Seq<Seq<u8>> {
        chunk_views(self.queue@)
    }

    /// The most chunks held at one time so far.
    pub closed spec fn spec_peak(&self) -> nat {
        self.peak as nat
    }

    /// Every chunk taken in so far, in order.
    pub closed spec fn accepted(&self) -> Seq<Seq<u8>> {
        self.accepted@
    }

    /// Every chunk handed out so far, in order.
    pub closed spec fn delivered(&self) -> Seq<Seq<u8>> {
        self.delivered@
    }

    pub closed spec fn spec_source_done(&self) -> bool {
        self.source_done
    }

    pub closed spec fn spec_error(&self) -> Option<String> {
        self.error
    }

    pub closed spec fn wf(&self) -> bool {
        &&& self.capacity > 0
        &&& self.queue@.len() <= self.peak <= self.capacity
        &&& self.error is Some ==> self.queue@.len() == 0
        &&& self.error is None ==> self.accepted@ == self.delivered@ + chunk_views(self.queue@)
    }

    /// The buffer never holds more than its capacity, at any time; and while
    /// no side has failed, what was handed out followed by what is held is
    /// exactly what was taken in, in order.
    pub proof fn lemma_bounded(&self)
        requires
            self.wf(),
        ensures
            self.buffered().len() <= self.spec_peak() <= self.spec_capacity(),
            self.spec_error() is None ==> self.accepted() == self.delivered() + self.buffered(),
    {
    }

    pub fn new(capacity: usize) -> (r: ChunkBridge)
        requires
            capacity > 0,
        ensures
            r.wf(),
            r.spec_capacity() == capacity,
            r.buffered().len() == 0,
            r.spec_peak() == 0,
            r.accepted().len() == 0,
            r.delivered().len() == 0,
            !r.spec_source_done(),
            r.spec_error() is None,
    {
        let r = ChunkBridge {
            capacity,
            queue: Vec::new(),
            source_done: false,
            error: None,
            peak: 0,
            accepted: Ghost(Seq::empty()),
            delivered: Ghost(Seq::empty()),
        };
        assert(r.accepted@ =~= r.delivered@ + chunk_views(r.queue@));
        r
    }

    /// Offers the producer's next chunk: it is taken where there is room,
    /// handed back where the buffer is full, and dropped once the transfer
    /// failed.
    pub fn offer(&mut self, chunk: Vec<u8>) -> (r: Offer)
        requires
            old(self).wf(),
        ensures
            final(self).wf(),
            final(self).spec_capacity() == old(self).spec_capacity(),
            final(self).spec_source_done() == old(self).spec_source_done(),
            final(self).spec_error() == old(self).spec_error(),
            final(self).delivered() == old(self).delivered(),
            old(self).spec_error() is Some ==> {
                &&& r is Cancelled
                &&& final(self).buffered() == old(self).buffered()
                &&& final(self).accepted() == old(self).accepted()
                &&& final(self).spec_peak() == old(self).spec_peak()
            },
            old(self).spec_error() is None && old(self).buffered().len() == old(self).spec_capacity() ==> {
                &&& r matches Offer::Full(c) && c == chunk
                &&& final(self).buffered() == old(self).buffered()
                &&& final(self).accepted() == old(self).accepted()
                &&& final(self).spec_peak() == old(self).spec_peak()
            },
            old(self).spec_error() is None && old(self).buffered().len() < old(self).spec_capacity()
                ==> {
                &&& r is Accepted
                &&& final(self).buffered() == old(self).buffered().push(chunk@)
                &&& final(self).accepted() == old(self).accepted().push(chunk@)
                &&& final(self).spec_peak() == if old(self).spec_peak() > old(self).buffered().len() {
                    old(self).spec_peak()
                } else {
                    old(self).buffered().len() + 1
                }
            },
    {
        if self.error.is_some() {
            return Offer::Cancelled;
        }
        if self.queue.len() >= self.capacity {
            return Offer::Full(chunk);
        }
        let ghost c = chunk@;
        let ghost a = self.accepted@;
        let ghost q = self.queue@;
        self.queue.push(chunk);
        if self.peak < self.queue.len() {
            self.peak = self.queue.len();
        }
        self.accepted = Ghost(a.push(c));
        proof {
            assert(chunk_views(self.queue@) =~= chunk_views(q).push(c));
            assert(self.accepted@ =~= self.delivered@ + chunk_views(self.queue@));
        }
        Offer::Accepted
    }

    /// Hands the oldest chunk to the consumer, if there is one and the
    /// transfer has not failed.
    pub fn take(&mut self) -> (r: Option<Vec<u8>>)
        requires
            old(self).wf(),
        ensures
            final(self).wf(),
            final(self).spec_capacity() == old(self).spec_capacity(),
            final(self).spec_source_done() == old(self).spec_source_done(),
            final(self).spec_error() == old(self).spec_error(),
            final(self).spec_peak() == old(self).spec_peak(),
            final(self).accepted() == old(self).accepted(),
            old(self).buffered().len() == 0 ==> {
                &&& r is None
                &&& final(self).buffered() == old(self).buffered()
                &&& final(self).delivered() == old(self).delivered()
            },
            old(self).buffered().len() > 0 ==> {
                &&& r matches Some(c) && c@ == old(self).buffered()[0]
                &&& final(self).buffered() == old(self).buffered().drop_first()
                &&& final(self).delivered() == old(self).delivered().push(old(self).buffered()[0])
            },
    {
        if self.queue.len() == 0 {
            return None;
        }
        let ghost q = self.queue@;
        let ghost d = self.delivered@;
        let c = self.queue.remove(0);
        self.delivered = Ghost(d.push(c@));
        proof {
            assert(chunk_views(self.queue@) =~= chunk_views(q).drop_first());
            if self.error is None {
                assert(self.accepted@ =~= self.delivered@ + chunk_views(self.queue@));
            }
        }
        Some(c)
    }

    /// The producer has no more chunks.
    pub fn end_source(&mut self)
        requires
            old(self).wf(),
        ensures
            final(self).wf(),
            final(self).spec_source_done(),
            final(self).spec_capacity() == old(self).spec_capacity(),
            final(self).spec_error() == old(self).spec_error(),
            final(self).spec_peak() == old(self).spec_peak(),
            final(self).buffered() == old(self).buffered(),
            final(self).accepted() == old(self).accepted(),
            final(self).delivered() == old(self).delivered(),
    {
        self.source_done = true;
    }

    /// One side failed: the transfer is cancelled and what is held is
    /// dropped. The first error is the one reported.
    pub fn fail(&mut self, e: String)
        requires
            old(self).wf(),
        ensures
            final(self).wf(),
            final(self).buffered().len() == 0,
            final(self).spec_error() == if old(self).spec_error() is Some {
                old(self).spec_error()
            } else {
                Some(e)
            },
            final(self).spec_capacity() == old(self).spec_capacity(),
            final(self).spec_source_done() == old(self).spec_source_done(),
            final(self).spec_peak() == old(self).spec_peak(),
            final(self).accepted() == old(self).accepted(),
            final(self).delivered() == old(self).delivered(),
    {
        if self.error.is_none() {
            self.error = Some(e);
        }
        self.queue = Vec::new();
        proof {
            assert(chunk_views(self.queue@) =~= Seq::<Seq<u8>>::empty());
        }
    }

    /// Failed where a side failed; finished once the producer is done and
    /// every chunk was handed out; open otherwise.
    pub fn status(&self) -> (r: BridgeStatus)
        requires
            self.wf(),
        ensures
            self.spec_error() matches Some(e) ==> (r matches BridgeStatus::Failed(t) && t == e),
            self.spec_error() is None && self.spec_source_done() && self.buffered().len() == 0 ==> r is Finished,
            self.spec_error() is None && !(self.spec_source_done() && self.buffered().len() == 0) ==> r is Open,
    {
        match &self.error {
            Some(e) => BridgeStatus::Failed(e.clone()),
            None => {
                if self.source_done && self.queue.len() == 0 {
                    BridgeStatus::Finished
                } else {
                    BridgeStatus::Open
                }
            },
        }
    }

    pub fn capacity(&self) -> (r: usize)
        ensures
            r == self.spec_capacity(),
    {
        self.capacity
    }

    pub fn len(&self) -> (r: usize)
        ensures
            r == self.buffered().len(),
    {
        self.queue.len()
    }

    pub fn peak(&self) -> (r: usize)
        ensures
            r == self.spec_peak(),
    {
        self.peak
    }
}

} // verus!
