use vstd::prelude::*;

verus! {

/// A volume to bind into a deployment: a directory of the host and the
/// directory of the backend where it appears. Either may be missing.
pub struct VolumeDef {
    pub source_dir: Option<String>,
    pub target_dir: Option<String>,
}

/// The set of texts that a sequence of strings holds.
pub open spec fn names(s: Seq<String>) -> Set<Seq<char>> {
    Set::new(|t: Seq<char>| exists|i: int| 0 <= i < s.len() && s[i]@ == t)
}

/// The strings of a sequence are pairwise distinct as texts.
pub open spec fn distinct_names(s: Seq<String>) -> bool {
    forall|i: int, j: int|
        0 <= i < s.len() && 0 <= j < s.len() && i != j ==> #[trigger] s[i]@ != #[trigger] s[j]@
}

/// The bind specification `source:target` of a volume, where it names both.
pub open spec fn bind_of(v: VolumeDef) -> Option<Seq<char>> {
    match (v.source_dir, v.target_dir) {
        (Some(s), Some(t)) => Some(s@ + ":"@ + t@),
        _ => None,
    }
}

/// The bind specifications of the volumes that name both directories, in order.
pub open spec fn binds_of(vs: Seq<VolumeDef>) -> Seq<Seq<char>>
    decreases vs.len(),
{
    if vs.len() == 0 {
        Seq::empty()
    } else {
        let rest = binds_of(vs.drop_last());
        match bind_of(vs.last()) {
            Some(b) => rest.push(b),
            None => rest,
        }
    }
}

/// The volumes that name both directories, in order.
pub open spec fn usable_volumes(vs: Seq<VolumeDef>) -> Seq<VolumeDef>
    decreases vs.len(),
{
    if vs.len() == 0 {
        Seq::empty()
    } else {
        let rest = usable_volumes(vs.drop_last());
        if bind_of(vs.last()) is Some {
            rest.push(vs.last())
        } else {
            rest
        }
    }
}

/// The decimal digits of a number.
pub open spec fn decimal_text(n: nat) -> Seq<char>
    decreases n,
{
    if n < 10 {
        seq![digit_char(n)]
    } else {
        decimal_text(n / 10).push(digit_char(n % 10))
    }
}

pub open spec fn digit_char(d: nat) -> char {
    if d < 10 {
        (('0' as u8) + (d as u8)) as char
    } else {
        '?'
    }
}

/// The directory of the workspace with the given number under a root.
pub open spec fn workspace_dir(root: Seq<char>, n: nat) -> Seq<char> {
    root + "/"@ + decimal_text(n)
}

fn digit_str(d: u64) -> (r: &'static str)
    requires
        d < 10,
    ensures
        r@ == seq![digit_char(d as nat)],
{
    proof {
        reveal_strlit("0");
        reveal_strlit("1");
        reveal_strlit("2");
        reveal_strlit("3");
        reveal_strlit("4");
        reveal_strlit("5");
        reveal_strlit("6");
        reveal_strlit("7");
        reveal_strlit("8");
        reveal_strlit("9");
    }
    let r = match d {
        0 => "0",
        1 => "1",
        2 => "2",
        3 => "3",
        4 => "4",
        5 => "5",
        6 => "6",
        7 => "7",
        8 => "8",
        _ => "9",
    };
    assert(r@ =~= seq![digit_char(d as nat)]);
    r
}

/// Writes a number in decimal.
pub fn decimal(n: u64) -> (r: String)
    ensures
        r@ == decimal_text(n as nat),
    decreases n,
{
    if n < 10 {
        String::from_str(digit_str(n))
    } else {
        let mut r = decimal(n / 10);
        r.append(digit_str(n % 10));
        r
    }
}

/// The working area of one deployment: its directory, its volumes, its tags
/// and its human-readable name and note.
pub struct Workspace {
    name: String,
    path: String,
    note: Option<String>,
    volumes: Vec<VolumeDef>,
    tags: Vec<String>,
}

proof fn lemma_names_push(s: Seq<String>, x: String)
    ensures
        names(s.push(x)) == names(s).insert(x@),
{
    let t = s.push(x);
    assert forall|n: Seq<char>| names(t).contains(n) <==> #[trigger] names(s).insert(x@).contains(
        n,
    ) by {
        if names(t).contains(n) {
            let i = choose|i: int| 0 <= i < t.len() && t[i]@ == n;
            if i < s.len() {
                assert(s[i] == t[i]);
            }
        }
        if names(s).contains(n) {
            let i = choose|i: int| 0 <= i < s.len() && s[i]@ == n;
            assert(t[i] == s[i]);
        }
        if n == x@ {
            assert(t[s.len() as int] == x);
        }
    }
    assert(names(t) =~= names(s).insert(x@));
}

/// Whether one of the strings has the text of `t`.
pub(crate) fn holds_name(s: &Vec<String>, t: &String) -> (r: bool)
    ensures
        r == names(s@).contains(t@),
{
    let mut i: usize = 0;
    while i < s.len()
        invariant
            i <= s@.len(),
            forall|j: int| 0 <= j < i ==> #[trigger] s@[j]@ != t@,
        decreases s@.len() - i,
    {
        if s[i].eq(t) {
            return true;
        }
        i = i + 1;
    }
    assert(!names(s@).contains(t@));
    false
}

impl Workspace {
    pub open spec fn wf(&self) -> bool {
        distinct_names(self.tag_list())
    }

    pub closed spec fn spec_name(&self) -> Seq<char> {
        self.name@
    }

    pub closed spec fn spec_path(&self) -> Seq<char> {
        self.path@
    }

    pub closed spec fn spec_note(&self) -> Option<String> {
        self.note
    }

    pub closed spec fn spec_volumes(&self) -> Seq<VolumeDef> {
        self.volumes@
    }

    /// The tags, in the order in which they were first added.
    pub closed spec fn tag_list(&self) -> Seq<String> {
        self.tags@
    }

    /// The set of tags.
    pub open spec fn tag_set(&self) -> Set<Seq<char>> {
        names(self.tag_list())
    }

    /// A workspace with the given directory, name and note, no volumes and no tags.
    pub fn new(path: String, name: String, note: Option<String>) -> (r: Workspace)
        ensures
            r.wf(),
            r.spec_path() == path@,
            r.spec_name() == name@,
            r.spec_note() == note,
            r.spec_volumes().len() == 0,
            r.tag_set() == Set::<Seq<char>>::empty(),
    {
        let r = Workspace { name, path, note, volumes: Vec::new(), tags: Vec::new() };
        assert(r.tag_set() =~= Set::<Seq<char>>::empty());
        r
    }

    pub fn name(&self) -> (r: &String)
        ensures
            r@ == self.spec_name(),
    {
        &self.name
    }

    pub fn path(&self) -> (r: &String)
        ensures
            r@ == self.spec_path(),
    {
        &self.path
    }

    pub fn note(&self) -> (r: &Option<String>)
        ensures
            *r == self.spec_note(),
    {
        &self.note
    }

    pub fn volumes(&self) -> (r: &Vec<VolumeDef>)
        ensures
            r@ == self.spec_volumes(),
    {
        &self.volumes
    }

    /// The tags, each once.
    pub fn tags(&self) -> (r: Vec<String>)
        requires
            self.wf(),
        ensures
            distinct_names(r@),
            names(r@) == self.tag_set(),
            r@.map_values(|t: String| t@) == self.tag_list().map_values(|t: String| t@),
    {
        let mut r: Vec<String> = Vec::new();
        let mut i: usize = 0;
        while i < self.tags.len()
            invariant
                i <= self.tags@.len(),
                distinct_names(self.tags@),
                r@.len() == i,
                forall|j: int| 0 <= j < i ==> #[trigger] r@[j]@ == self.tags@[j]@,
            decreases self.tags@.len() - i,
        {
            r.push(self.tags[i].clone());
            i = i + 1;
        }
        assert(r@.map_values(|t: String| t@) =~= self.tag_list().map_values(|t: String| t@));
        assert(names(r@) =~= self.tag_set()) by {
            assert forall|n: Seq<char>| #[trigger] names(r@).contains(n) implies self.tag_set().contains(n) by {
                let j = choose|j: int| 0 <= j < r@.len() && r@[j]@ == n;
                assert(self.tags@[j]@ == n);
            }
            assert forall|n: Seq<char>| #[trigger] self.tag_set().contains(n) implies names(r@).contains(n) by {
                let j = choose|j: int| 0 <= j < self.tags@.len() && self.tags@[j]@ == n;
                assert(r@[j]@ == n);
            }
        }
        r
    }

    /// Adds a volume to the end of the list.
    pub fn add_volume(&mut self, v: VolumeDef)
        ensures
            final(self).spec_volumes() == old(self).spec_volumes().push(v),
            final(self).tag_list() == old(self).tag_list(),
            final(self).spec_name() == old(self).spec_name(),
            final(self).spec_path() == old(self).spec_path(),
            final(self).spec_note() == old(self).spec_note(),
    {
        self.volumes.push(v);
    }

    /// Adds each of the given tags that is not present yet.
    pub fn add_tags(&mut self, tags: Vec<String>)
        requires
            old(self).wf(),
        ensures
            final(self).wf(),
            final(self).tag_set() == old(self).tag_set().union(names(tags@)),
            final(self).spec_volumes() == old(self).spec_volumes(),
            final(self).spec_name() == old(self).spec_name(),
            final(self).spec_path() == old(self).spec_path(),
            final(self).spec_note() == old(self).spec_note(),
    {
        let ghost start = self.tag_set();
        let mut i: usize = 0;
        while i < tags.len()
            invariant
                i <= tags@.len(),
                self.wf(),
                self.tag_set() == start.union(names(tags@.take(i as int))),
                self.spec_volumes() == old(self).spec_volumes(),
                self.spec_name() == old(self).spec_name(),
                self.spec_path() == old(self).spec_path(),
                self.spec_note() == old(self).spec_note(),
            decreases tags@.len() - i,
        {
            let t = &tags[i];
            proof {
                assert(tags@.take(i as int + 1) =~= tags@.take(i as int).push(tags@[i as int]));
                lemma_names_push(tags@.take(i as int), tags@[i as int]);
            }
            if !holds_name(&self.tags, t) {
                let ghost before = self.tags@;
                self.tags.push(t.clone());
                proof {
                    lemma_names_push(before, *t);
                    assert forall|a: int, b: int|
                        0 <= a < self.tags@.len() && 0 <= b < self.tags@.len() && a != b implies
                        #[trigger] self.tags@[a]@ != #[trigger] self.tags@[b]@ by {
                        if a < before.len() && b < before.len() {
                            assert(self.tags@[a] == before[a] && self.tags@[b] == before[b]);
                        } else if a < before.len() {
                            assert(self.tags@[a] == before[a]);
                            assert(names(before).contains(before[a]@));
                        } else {
                            assert(self.tags@[b] == before[b]);
                            assert(names(before).contains(before[b]@));
                        }
                    }
                }
            }
            proof {
                assert(self.tag_set() =~= start.union(names(tags@.take(i as int + 1))));
            }
            i = i + 1;
        }
        proof {
            assert(tags@.take(tags@.len() as int) =~= tags@);
        }
    }

    /// Removes each of the given tags; a tag that is not present is ignored.
    pub fn remove_tags(&mut self, tags: Vec<String>)
        requires
            old(self).wf(),
        ensures
            final(self).wf(),
            final(self).tag_set() == old(self).tag_set().difference(names(tags@)),
            final(self).spec_volumes() == old(self).spec_volumes(),
            final(self).spec_name() == old(self).spec_name(),
            final(self).spec_path() == old(self).spec_path(),
            final(self).spec_note() == old(self).spec_note(),
    {
        let ghost drop = names(tags@);
        let mut kept: Vec<String> = Vec::new();
        let mut i: usize = 0;
        while i < self.tags.len()
            invariant
                i <= self.tags@.len(),
                drop == names(tags@),
                distinct_names(self.tags@),
                distinct_names(kept@),
                names(kept@) == names(self.tags@.take(i as int)).difference(drop),
                forall|n: Seq<char>| #[trigger] names(kept@).contains(n) ==> names(self.tags@.take(i as int)).contains(n),
            decreases self.tags@.len() - i,
        {
            let ghost pre = self.tags@.take(i as int);
            proof {
                assert(self.tags@.take(i as int + 1) =~= pre.push(self.tags@[i as int]));
                lemma_names_push(pre, self.tags@[i as int]);
            }
            let present = holds_name(&tags, &self.tags[i]);
            if !present {
                let ghost before = kept@;
                let t = self.tags[i].clone();
                kept.push(t);
                proof {
                    lemma_names_push(before, t);
                    assert(!names(pre).contains(t@)) by {
                        if names(pre).contains(t@) {
                            let j = choose|j: int| 0 <= j < pre.len() && pre[j]@ == t@;
                            assert(self.tags@[j] == pre[j]);
                        }
                    }
                    assert forall|a: int, b: int|
                        0 <= a < kept@.len() && 0 <= b < kept@.len() && a != b implies
                        #[trigger] kept@[a]@ != #[trigger] kept@[b]@ by {
                        if a < before.len() && b < before.len() {
                            assert(kept@[a] == before[a] && kept@[b] == before[b]);
                        } else if a < before.len() {
                            assert(kept@[a] == before[a]);
                            assert(names(before).contains(before[a]@));
                        } else {
                            assert(kept@[b] == before[b]);
                            assert(names(before).contains(before[b]@));
                        }
                    }
                }
            }
            proof {
                let x = self.tags@[i as int]@;
                assert(names(self.tags@.take(i as int + 1)) == names(pre).insert(x));
                if present {
                    assert(drop.contains(x));
                    assert(names(kept@) =~= names(pre).insert(x).difference(drop));
                } else {
                    assert(names(kept@) =~= names(pre).insert(x).difference(drop));
                }
            }
            i = i + 1;
        }
        proof {
            assert(self.tags@.take(self.tags@.len() as int) =~= self.tags@);
        }
        self.tags = kept;
    }
}

/// Adding tags that were all absent and then removing the same tags gives
/// back the tag set from before.
pub proof fn lemma_add_then_remove_restores(w: Workspace, tags: Seq<String>)
    requires
        w.wf(),
        w.tag_set().disjoint(names(tags)),
    ensures
        w.tag_set().union(names(tags)).difference(names(tags)) == w.tag_set(),
{
    assert(w.tag_set().union(names(tags)).difference(names(tags)) =~= w.tag_set());
}

/// Adding tags that are present already leaves the tag set as it is; a tag
/// named twice in one request counts once.
pub proof fn lemma_add_present_is_noop(w: Workspace, tags: Seq<String>, t: String)
    requires
        w.wf(),
        names(tags).subset_of(w.tag_set()),
    ensures
        w.tag_set().union(names(tags)) == w.tag_set(),
        names(tags.push(t).push(t)) == names(tags.push(t)),
{
    assert(w.tag_set().union(names(tags)) =~= w.tag_set());
    lemma_names_push(tags, t);
    lemma_names_push(tags.push(t), t);
    assert(names(tags.push(t)).insert(t@) =~= names(tags.push(t)));
}

/// Adding the same tags twice gives the tag set that adding them once gives.
pub proof fn lemma_add_twice(w: Workspace, tags: Seq<String>)
    requires
        w.wf(),
    ensures
        w.tag_set().union(names(tags)).union(names(tags)) == w.tag_set().union(names(tags)),
{
    assert(w.tag_set().union(names(tags)).union(names(tags)) =~= w.tag_set().union(names(tags)));
}

/// Hands out workspaces under a root directory, each with a directory of its
/// own, named by a counter.
pub struct WorkspacesManager {
    root: String,
    next: u64,
}

impl WorkspacesManager {
    pub closed spec fn spec_root(&self) -> Seq<char> {
        self.root@
    }

    /// The number of the next workspace.
    pub closed spec fn spec_next(&self) -> nat {
        self.next as nat
    }

    pub fn new(root: String) -> (r: WorkspacesManager)
        ensures
            r.spec_root() == root@,
            r.spec_next() == 0,
    {
        WorkspacesManager { root, next: 0 }
    }

    pub fn root(&self) -> (r: &String)
        ensures
            r@ == self.spec_root(),
    {
        &self.root
    }

    /// A fresh workspace whose directory no earlier one of this manager has.
    /// It is `None` only once the counter is spent.
    pub fn workspace(&mut self, name: String, note: Option<String>) -> (r: Option<Workspace>)
        ensures
            final(self).spec_root() == old(self).spec_root(),
            r is None <==> old(self).spec_next() == u64::MAX,
            r is None ==> final(self).spec_next() == old(self).spec_next(),
            r matches Some(w) ==> {
                &&& w.wf()
                &&& w.spec_path() == workspace_dir(old(self).spec_root(), old(self).spec_next())
                &&& w.spec_name() == name@
                &&& w.spec_note() == note
                &&& w.spec_volumes().len() == 0
                &&& w.tag_set() == Set::<Seq<char>>::empty()
                &&& final(self).spec_next() == old(self).spec_next() + 1
            },
    {
        if self.next == u64::MAX {
            return None;
        }
        let mut path = self.root.clone();
        path.append("/");
        let d = decimal(self.next);
        path.append(d.as_str());
        self.next = self.next + 1;
        Some(Workspace::new(path, name, note))
    }

    /// A fresh workspace with the volumes of `vols` that name both
    /// directories, and their bind specifications, in order.
    pub fn binds_and_workspace(&mut self, name: String, note: Option<String>, vols: &Vec<VolumeDef>) -> (r: Option<(Vec<String>, Workspace)>)
        ensures
            final(self).spec_root() == old(self).spec_root(),
            r is None <==> old(self).spec_next() == u64::MAX,
            r is None ==> final(self).spec_next() == old(self).spec_next(),
            r matches Some((binds, w)) ==> {
                &&& w.wf()
                &&& w.spec_path() == workspace_dir(old(self).spec_root(), old(self).spec_next())
                &&& w.spec_name() == name@
                &&& w.spec_note() == note
                &&& w.tag_set() == Set::<Seq<char>>::empty()
                &&& binds@.map_values(|b: String| b@) == binds_of(vols@)
                &&& w.spec_volumes() == usable_volumes(vols@)
                &&& w.spec_volumes().len() == binds@.len()
                &&& forall|j: int| 0 <= j < binds@.len() ==> bind_of(#[trigger] w.spec_volumes()[j]) == Some(binds@[j]@)
                &&& final(self).spec_next() == old(self).spec_next() + 1
            },
    {
        let mut w = match self.workspace(name, note) {
            Some(w) => w,
            None => return None,
        };
        let mut binds: Vec<String> = Vec::new();
        let mut i: usize = 0;
        while i < vols.len()
            invariant
                i <= vols@.len(),
                w.wf(),
                w.spec_path() == workspace_dir(old(self).spec_root(), old(self).spec_next()),
                w.spec_name() == name@,
                w.spec_note() == note,
                w.tag_set() == Set::<Seq<char>>::empty(),
                binds@.map_values(|b: String| b@) == binds_of(vols@.take(i as int)),
                w.spec_volumes() == usable_volumes(vols@.take(i as int)),
                w.spec_volumes().len() == binds@.len(),
                forall|j: int| 0 <= j < binds@.len() ==> bind_of(#[trigger] w.spec_volumes()[j]) == Some(binds@[j]@),
            decreases vols@.len() - i,
        {
            let v = &vols[i];
            proof {
                assert(vols@.take(i as int + 1).drop_last() =~= vols@.take(i as int));
            }
            match (&v.source_dir, &v.target_dir) {
                (Some(s), Some(t)) => {
                    let mut b = s.clone();
                    b.append(":");
                    b.append(t.as_str());
                    let kept = VolumeDef { source_dir: Some(s.clone()), target_dir: Some(t.clone()) };
                    assert(kept == vols@[i as int]);
                    w.add_volume(kept);
                    binds.push(b);
                    proof {
                        assert(w.spec_volumes() =~= usable_volumes(vols@.take(i as int + 1)));
                        assert(binds@.map_values(|b: String| b@) =~= binds_of(vols@.take(i as int + 1)));
                    }
                },
                _ => {
                    proof {
                        assert(w.spec_volumes() =~= usable_volumes(vols@.take(i as int + 1)));
                        assert(binds@.map_values(|b: String| b@) =~= binds_of(vols@.take(i as int + 1)));
                    }
                },
            }
            i = i + 1;
        }
        proof {
            assert(vols@.take(vols@.len() as int) =~= vols@);
        }
        Some((binds, w))
    }
}

} // verus!
