use vstd::prelude::*;

verus! {

/// A remote file: the digest its content must hash to and the URL the bytes
/// can be fetched from. Part of a [`Directory`].
#[derive(Debug)]
pub struct File {
    /// Lowercase hex SHA-256 digest of the expected content.
    pub sha: String,
    /// Source URL for the bytes.
    pub url: String,
}

/// A node of the desired-state tree: the files and subdirectories that should
/// exist at one level, each keyed by name. Names are unique within a node.
/// The root node has no name of its own; the caller anchors it to a path.
#[derive(Debug)]
pub struct Directory {
    /// File name to remote file, unique names.
    pub files: Vec<(String, File)>,
    /// Subdirectory name to subtree, unique names.
    pub children: Vec<(String, Directory)>,
}

/// A snapshot of one local directory level: for each local file its name and
/// the lowercase hex SHA-256 digest of its current content, and for each
/// local subdirectory its name and its own snapshot.
#[derive(Debug)]
pub struct LocalDir {
    /// Local file name to digest of its content.
    pub files: Vec<(String, String)>,
    /// Local subdirectory name to its snapshot.
    pub dirs: Vec<(String, LocalDir)>,
}

/// The mathematical value of a [`File`].
#[verifier::ext_equal]
pub struct FileV {
    pub sha: Seq<char>,
    pub url: Seq<char>,
}

/// The mathematical value of a [`Directory`].
#[verifier::ext_equal]
pub struct DirectoryV {
    pub files: Seq<(Seq<char>, FileV)>,
    pub children: Seq<(Seq<char>, DirectoryV)>,
}

/// The mathematical value of a [`LocalDir`].
#[verifier::ext_equal]
pub struct LocalDirV {
    pub files: Seq<(Seq<char>, Seq<char>)>,
    pub dirs: Seq<(Seq<char>, LocalDirV)>,
}

impl DeepView for File {
    type V = FileV;

    open spec fn deep_view(&self) -> FileV {
        FileV { sha: self.sha@, url: self.url@ }
    }
}

pub open spec fn dir_deep_view(d: Directory) -> DirectoryV
    decreases d,
{
    DirectoryV {
        files: d.files.deep_view(),
        children: Seq::new(
            d.children@.len(),
            |i: int|
                if 0 <= i < d.children@.len() {
                    (d.children@[i].0@, dir_deep_view(d.children@[i].1))
                } else {
                    (Seq::empty(), DirectoryV { files: Seq::empty(), children: Seq::empty() })
                },
        ),
    }
}

impl DeepView for Directory {
    type V = DirectoryV;

    open spec fn deep_view(&self) -> DirectoryV {
        dir_deep_view(*self)
    }
}

pub open spec fn local_deep_view(l: LocalDir) -> LocalDirV
    decreases l,
{
    LocalDirV {
        files: l.files.deep_view(),
        dirs: Seq::new(
            l.dirs@.len(),
            |i: int|
                if 0 <= i < l.dirs@.len() {
                    (l.dirs@[i].0@, local_deep_view(l.dirs@[i].1))
                } else {
                    (Seq::empty(), LocalDirV { files: Seq::empty(), dirs: Seq::empty() })
                },
        ),
    }
}

impl DeepView for LocalDir {
    type V = LocalDirV;

    open spec fn deep_view(&self) -> LocalDirV {
        local_deep_view(*self)
    }
}

impl Default for Directory {
    /// An empty manifest node.
    fn default() -> (r: Self)
        ensures
            r.deep_view() == (DirectoryV { files: Seq::empty(), children: Seq::empty() }),
    {
        let r = Directory { files: Vec::new(), children: Vec::new() };
        proof {
            assert(r.files@.len() == 0);
            assert(r.children@.len() == 0);
            assert(r.deep_view().files =~= Seq::<(Seq<char>, FileV)>::empty());
            assert(r.deep_view().children =~= Seq::<(Seq<char>, DirectoryV)>::empty());
            assert(r.deep_view() =~= (DirectoryV { files: Seq::empty(), children: Seq::empty() }));
        }
        r
    }
}

impl Clone for File {
    /// Clones both fields exactly.
    fn clone(&self) -> (r: Self)
        ensures
            r == *self,
    {
        let r = File { sha: self.sha.clone(), url: self.url.clone() };
        proof {
            assert(r == *self);
        }
        r
    }
}

/// The value mapped to `name` in an association list: the first entry whose
/// key equals `name`, if any.
pub open spec fn lookup<V>(entries: Seq<(Seq<char>, V)>, name: Seq<char>) -> Option<V>
    decreases entries.len(),
{
    if entries.len() == 0 {
        None
    } else if entries[0].0 == name {
        Some(entries[0].1)
    } else {
        lookup(entries.drop_first(), name)
    }
}

/// Keys are pairwise distinct.
pub open spec fn distinct_keys<V>(entries: Seq<(Seq<char>, V)>) -> bool {
    forall|i: int, j: int| 0 <= i < j < entries.len() ==> entries[i].0 != entries[j].0
}

proof fn lemma_lookup_skip<V>(entries: Seq<(Seq<char>, V)>, name: Seq<char>, i: int)
    requires
        0 <= i <= entries.len(),
        forall|j: int| 0 <= j < i ==> entries[j].0 != name,
    ensures
        lookup(entries, name) == lookup(entries.skip(i), name),
    decreases i,
{
    if i > 0 {
        assert(entries.len() > 0);
        lemma_lookup_skip(entries.drop_first(), name, i - 1);
        assert(entries.drop_first().skip(i - 1) =~= entries.skip(i));
    } else {
        assert(entries.skip(0) =~= entries);
    }
}

/// If an entry with key `name` stands at index `i`, the lookup finds some
/// entry with that key; with distinct keys it finds exactly that entry.
pub proof fn lemma_lookup_present<V>(entries: Seq<(Seq<char>, V)>, i: int)
    requires
        0 <= i < entries.len(),
    ensures
        lookup(entries, entries[i].0) is Some,
        distinct_keys(entries) ==> lookup(entries, entries[i].0) == Some(entries[i].1),
    decreases entries.len(),
{
    if i > 0 && entries[0].0 != entries[i].0 {
        lemma_lookup_present(entries.drop_first(), i - 1);
        assert(entries.drop_first()[i - 1] == entries[i]);
        assert(distinct_keys(entries) ==> distinct_keys(entries.drop_first())) by {
            if distinct_keys(entries) {
                assert forall|p: int, q: int|
                    0 <= p < q < entries.drop_first().len() implies entries.drop_first()[p].0
                    != entries.drop_first()[q].0 by {
                    assert(entries.drop_first()[p] == entries[p + 1]);
                    assert(entries.drop_first()[q] == entries[q + 1]);
                }
            }
        }
    } else if i > 0 && entries[0].0 == entries[i].0 {
        assert(lookup(entries, entries[i].0) is Some);
        assert(distinct_keys(entries) ==> false);
    }
}

/// Finds the first entry named `name` in an association list.
pub(crate) fn assoc_find<'a, V: DeepView>(entries: &'a Vec<(String, V)>, name: &String) -> (r: Option<
    &'a V,
>)
    ensures
        match r {
            Some(v) => lookup(entries.deep_view(), name@) == Some(v.deep_view()),
            None => lookup(entries.deep_view(), name@) is None,
        },
{
    let ghost dv = entries.deep_view();
    let mut i: usize = 0;
    while i < entries.len()
        invariant
            0 <= i <= entries@.len(),
            dv == entries.deep_view(),
            dv.len() == entries@.len(),
            forall|j: int| 0 <= j < i ==> dv[j].0 != name@,
        decreases entries@.len() - i,
    {
        proof {
            assert(dv[i as int] == (entries@[i as int].0@, entries@[i as int].1.deep_view()));
        }
        if entries[i].0 == *name {
            proof {
                lemma_lookup_skip(dv, name@, i as int);
                assert(dv.skip(i as int)[0] == dv[i as int]);
            }
            return Some(&entries[i].1);
        }
        i += 1;
    }
    proof {
        lemma_lookup_skip(dv, name@, i as int);
        assert(dv.skip(i as int).len() == 0);
    }
    None
}

/// The mutations and downloads that bring one local directory level, and
/// everything below it, into agreement with a [`Directory`].
#[derive(Debug)]
pub struct DirPlan {
    /// Local subdirectories to delete recursively, by name.
    pub delete_dirs: Vec<String>,
    /// Local files to delete, by name.
    pub delete_files: Vec<String>,
    /// Remote files to download into this directory.
    pub fetches: Vec<(String, File)>,
    /// For every manifest subdirectory: ensure it exists, then apply its plan.
    pub children: Vec<(String, DirPlan)>,
}

/// The mathematical value of a [`DirPlan`].
#[verifier::ext_equal]
pub struct DirPlanV {
    pub delete_dirs: Seq<Seq<char>>,
    pub delete_files: Seq<Seq<char>>,
    pub fetches: Seq<(Seq<char>, FileV)>,
    pub children: Seq<(Seq<char>, DirPlanV)>,
}

pub open spec fn plan_deep_view(p: DirPlan) -> DirPlanV
    decreases p,
{
    DirPlanV {
        delete_dirs: p.delete_dirs.deep_view(),
        delete_files: p.delete_files.deep_view(),
        fetches: p.fetches.deep_view(),
        children: Seq::new(
            p.children@.len(),
            |i: int|
                if 0 <= i < p.children@.len() {
                    (p.children@[i].0@, plan_deep_view(p.children@[i].1))
                } else {
                    (
                        Seq::empty(),
                        DirPlanV {
                            delete_dirs: Seq::empty(),
                            delete_files: Seq::empty(),
                            fetches: Seq::empty(),
                            children: Seq::empty(),
                        },
                    )
                },
        ),
    }
}

impl DeepView for DirPlan {
    type V = DirPlanV;

    open spec fn deep_view(&self) -> DirPlanV {
        plan_deep_view(*self)
    }
}

/// A remote file needs fetching when no local file carries its name and its
/// exact digest.
pub open spec fn needs_fetch(local_files: Seq<(Seq<char>, Seq<char>)>) -> spec_fn(
    (Seq<char>, FileV),
) -> bool {
    |p: (Seq<char>, FileV)| lookup(local_files, p.0) != Some(p.1.sha)
}

/// A local file is stale when the manifest knows no file of its name, or
/// declares a different digest for it.
pub open spec fn stale_file(remote_files: Seq<(Seq<char>, FileV)>) -> spec_fn(
    (Seq<char>, Seq<char>),
) -> bool {
    |q: (Seq<char>, Seq<char>)|
        match lookup(remote_files, q.0) {
            Some(f) => f.sha != q.1,
            None => true,
        }
}

/// A local subdirectory is unknown when the manifest has no child of its name.
pub open spec fn unknown_dir(remote_children: Seq<(Seq<char>, DirectoryV)>) -> spec_fn(
    (Seq<char>, LocalDirV),
) -> bool {
    |d: (Seq<char>, LocalDirV)| lookup(remote_children, d.0) is None
}

/// The name of an association-list entry.
pub open spec fn entry_key<V>() -> spec_fn((Seq<char>, V)) -> Seq<char> {
    |p: (Seq<char>, V)| p.0
}

/// The snapshot reconciliation works against below a manifest child: the
/// local subdirectory of that name if one exists, otherwise an empty one.
pub open spec fn local_child(local: LocalDirV, name: Seq<char>) -> LocalDirV {
    match lookup(local.dirs, name) {
        Some(d) => d,
        None => LocalDirV { files: Seq::empty(), dirs: Seq::empty() },
    }
}

/// The reconciliation plan for one directory level. At the root no local
/// entry is inspected or deleted and every manifest file is fetched; the
/// root may legitimately hold entries the manifest knows nothing about.
/// Below the root, unknown subdirectories and stale files are deleted and
/// exactly the files without a correct local copy are fetched. Every
/// manifest child is then planned recursively against the local
/// subdirectory of its name.
pub open spec fn plan_spec(remote: DirectoryV, local: LocalDirV, is_root: bool) -> DirPlanV
    decreases remote,
{
    DirPlanV {
        delete_dirs: if is_root {
            Seq::empty()
        } else {
            local.dirs.filter(unknown_dir(remote.children)).map_values(entry_key())
        },
        delete_files: if is_root {
            Seq::empty()
        } else {
            local.files.filter(stale_file(remote.files)).map_values(entry_key())
        },
        fetches: if is_root {
            remote.files
        } else {
            remote.files.filter(needs_fetch(local.files))
        },
        children: Seq::new(
            remote.children.len(),
            |i: int|
                if 0 <= i < remote.children.len() {
                    (
                        remote.children[i].0,
                        plan_spec(
                            remote.children[i].1,
                            local_child(local, remote.children[i].0),
                            false,
                        ),
                    )
                } else {
                    (
                        Seq::empty(),
                        DirPlanV {
                            delete_dirs: Seq::empty(),
                            delete_files: Seq::empty(),
                            fetches: Seq::empty(),
                            children: Seq::empty(),
                        },
                    )
                },
        ),
    }
}

proof fn lemma_map_push<A, B>(s: Seq<A>, e: A, f: spec_fn(A) -> B)
    ensures
        s.push(e).map_values(f) == s.map_values(f).push(f(e)),
{
    assert(s.push(e).map_values(f) =~= s.map_values(f).push(f(e)));
}

impl Directory {
    /// Computes the plan that brings the tree under a local path into
    /// agreement with this manifest node. `is_root` marks the very first
    /// level: there nothing local is inspected or deleted, and every
    /// manifest file is fetched, so that entries the manifest does not
    /// know are left alone. The caller executes the plan: deletions first
    /// at each level, then downloads (each verified against its digest),
    /// and each child plan inside its, possibly new, subdirectory.
    pub fn plan_upgrade(&self, local: &LocalDir, is_root: bool) -> (r: DirPlan)
        ensures
            r.deep_view() == plan_spec(self.deep_view(), local.deep_view(), is_root),
        decreases *self,
    {
        let ghost dv = self.deep_view();
        let ghost lv = local.deep_view();
        let ghost goal = plan_spec(dv, lv, is_root);
        proof {
            assert(dv.files == self.files.deep_view());
            assert(lv.files == local.files.deep_view());
            assert(dv.children =~= self.children.deep_view());
            assert(lv.dirs =~= local.dirs.deep_view());
        }
        let mut delete_dirs: Vec<String> = Vec::new();
        let mut delete_files: Vec<String> = Vec::new();
        let mut fetches: Vec<(String, File)> = Vec::new();
        let mut children: Vec<(String, DirPlan)> = Vec::new();

        if !is_root {
            let mut i: usize = 0;
            while i < local.dirs.len()
                invariant
                    i <= local.dirs@.len(),
                    lv == local.deep_view(),
                    dv == self.deep_view(),
                    lv.dirs == local.dirs.deep_view(),
                    dv.children == self.children.deep_view(),
                    delete_dirs.deep_view() == lv.dirs.take(i as int).filter(
                        unknown_dir(dv.children),
                    ).map_values(entry_key()),
                decreases local.dirs@.len() - i,
            {
                let ghost elem = lv.dirs[i as int];
                proof {
                    assert(elem == (local.dirs@[i as int].0@, local.dirs@[i as int].1.deep_view()));
                    assert(lv.dirs.take(i as int + 1) =~= lv.dirs.take(i as int).push(elem));
                    lemma_filter_push(lv.dirs.take(i as int), elem, unknown_dir(dv.children));
                    lemma_map_push(
                        lv.dirs.take(i as int).filter(unknown_dir(dv.children)),
                        elem,
                        entry_key(),
                    );
                }
                let name = &local.dirs[i].0;
                if assoc_find(&self.children, name).is_none() {
                    let ghost before = delete_dirs.deep_view();
                    delete_dirs.push(name.clone());
                    proof {
                        assert(delete_dirs.deep_view() =~= before.push(name@));
                    }
                }
                i += 1;
            }
            proof {
                assert(lv.dirs.take(local.dirs@.len() as int) =~= lv.dirs);
            }

            let mut i: usize = 0;
            while i < local.files.len()
                invariant
                    i <= local.files@.len(),
                    lv == local.deep_view(),
                    dv == self.deep_view(),
                    lv.files == local.files.deep_view(),
                    dv.files == self.files.deep_view(),
                    delete_files.deep_view() == lv.files.take(i as int).filter(
                        stale_file(dv.files),
                    ).map_values(entry_key()),
                decreases local.files@.len() - i,
            {
                let ghost elem = lv.files[i as int];
                proof {
                    assert(elem == (local.files@[i as int].0@, local.files@[i as int].1@));
                    assert(lv.files.take(i as int + 1) =~= lv.files.take(i as int).push(elem));
                    lemma_filter_push(lv.files.take(i as int), elem, stale_file(dv.files));
                    lemma_map_push(
                        lv.files.take(i as int).filter(stale_file(dv.files)),
                        elem,
                        entry_key(),
                    );
                }
                let name = &local.files[i].0;
                let lsha = &local.files[i].1;
                let keep = match assoc_find(&self.files, name) {
                    Some(f) => f.sha == *lsha,
                    None => false,
                };
                proof {
                    assert(keep == !stale_file(dv.files)(elem));
                }
                if !keep {
                    let ghost before = delete_files.deep_view();
                    delete_files.push(name.clone());
                    proof {
                        assert(delete_files.deep_view() =~= before.push(name@));
                    }
                }
                i += 1;
            }
            proof {
                assert(lv.files.take(local.files@.len() as int) =~= lv.files);
            }

            let mut i: usize = 0;
            while i < self.files.len()
                invariant
                    i <= self.files@.len(),
                    lv == local.deep_view(),
                    dv == self.deep_view(),
                    lv.files == local.files.deep_view(),
                    dv.files == self.files.deep_view(),
                    fetches.deep_view() == dv.files.take(i as int).filter(needs_fetch(lv.files)),
                decreases self.files@.len() - i,
            {
                let ghost elem = dv.files[i as int];
                proof {
                    assert(elem == (self.files@[i as int].0@, self.files@[i as int].1.deep_view()));
                    assert(dv.files.take(i as int + 1) =~= dv.files.take(i as int).push(elem));
                    lemma_filter_push(dv.files.take(i as int), elem, needs_fetch(lv.files));
                }
                let name = &self.files[i].0;
                let file = &self.files[i].1;
                let keep = match assoc_find(&local.files, name) {
                    Some(l) => *l == file.sha,
                    None => false,
                };
                proof {
                    assert(keep == !needs_fetch(lv.files)(elem));
                }
                if !keep {
                    let ghost before = fetches.deep_view();
                    fetches.push((name.clone(), file.clone()));
                    proof {
                        assert(fetches.deep_view() =~= before.push(elem));
                    }
                }
                i += 1;
            }
            proof {
                assert(dv.files.take(self.files@.len() as int) =~= dv.files);
            }
        } else {
            let mut i: usize = 0;
            while i < self.files.len()
                invariant
                    i <= self.files@.len(),
                    dv == self.deep_view(),
                    dv.files == self.files.deep_view(),
                    fetches.deep_view() == dv.files.take(i as int),
                decreases self.files@.len() - i,
            {
                let ghost elem = dv.files[i as int];
                proof {
                    assert(elem == (self.files@[i as int].0@, self.files@[i as int].1.deep_view()));
                    assert(dv.files.take(i as int + 1) =~= dv.files.take(i as int).push(elem));
                }
                let p = &self.files[i];
                let ghost before = fetches.deep_view();
                fetches.push((p.0.clone(), p.1.clone()));
                proof {
                    assert(fetches.deep_view() =~= before.push(elem));
                }
                i += 1;
            }
            proof {
                assert(dv.files.take(self.files@.len() as int) =~= dv.files);
            }
        }

        let mut i: usize = 0;
        while i < self.children.len()
            invariant
                i <= self.children@.len(),
                lv == local.deep_view(),
                dv == self.deep_view(),
                lv.dirs == local.dirs.deep_view(),
                dv.children == self.children.deep_view(),
                goal == plan_spec(dv, lv, is_root),
                goal.children.len() == dv.children.len(),
                dv.children.len() == self.children@.len(),
                children.deep_view() == goal.children.take(i as int),
            decreases self.children@.len() - i,
        {
            let ghost cname = dv.children[i as int].0;
            let ghost cdir = dv.children[i as int].1;
            proof {
                assert(dv.children[i as int] == (
                    self.children@[i as int].0@,
                    self.children@[i as int].1.deep_view(),
                ));
                assert(goal.children[i as int] == (
                    cname,
                    plan_spec(cdir, local_child(lv, cname), false),
                ));
            }
            let name = &self.children[i].0;
            let child = &self.children[i].1;
            let sub: DirPlan = match assoc_find(&local.dirs, name) {
                Some(ld) => child.plan_upgrade(ld, false),
                None => {
                    let empty_local = LocalDir { files: Vec::new(), dirs: Vec::new() };
                    proof {
                        assert(empty_local.files@.len() == 0);
                        assert(empty_local.dirs@.len() == 0);
                        assert(empty_local.deep_view().files =~= Seq::<(Seq<char>, Seq<char>)>::empty());
                        assert(empty_local.deep_view().dirs =~= Seq::<(Seq<char>, LocalDirV)>::empty());
                        assert(empty_local.deep_view() =~= (LocalDirV {
                            files: Seq::empty(),
                            dirs: Seq::empty(),
                        }));
                    }
                    child.plan_upgrade(&empty_local, false)
                },
            };
            proof {
                assert(sub.deep_view() == plan_spec(cdir, local_child(lv, cname), false));
                assert(goal.children.take(i as int + 1) =~= goal.children.take(i as int).push(
                    goal.children[i as int],
                ));
            }
            let ghost before = children.deep_view();
            children.push((name.clone(), sub));
            proof {
                assert(children.deep_view() =~= before.push((cname, sub.deep_view())));
            }
            i += 1;
        }
        proof {
            assert(goal.children.take(self.children@.len() as int) =~= goal.children);
        }

        let r = DirPlan { delete_dirs, delete_files, fetches, children };
        proof {
            assert(r.deep_view().delete_dirs =~= goal.delete_dirs);
            assert(r.deep_view().delete_files =~= goal.delete_files);
            assert(r.deep_view().fetches =~= goal.fetches);
            assert(r.deep_view().children =~= goal.children);
            assert(r.deep_view() =~= goal);
        }
        r
    }
}

proof fn lemma_filter_push<A>(s: Seq<A>, e: A, pred: spec_fn(A) -> bool)
    ensures
        s.push(e).filter(pred) == (if pred(e) {
            s.filter(pred).push(e)
        } else {
            s.filter(pred)
        }),
{
    reveal(Seq::filter);
    assert(s.push(e).drop_last() =~= s);
}

/// A manifest node is well formed when file and child names are unique at
/// every level, as map keys make them in a parsed manifest.
pub open spec fn dv_wf(d: DirectoryV) -> bool
    decreases d,
{
    &&& distinct_keys(d.files)
    &&& distinct_keys(d.children)
    &&& forall|i: int| 0 <= i < d.children.len() ==> dv_wf((#[trigger] d.children[i]).1)
}

/// A local tree agrees with a manifest node: every manifest file is present
/// under its declared digest; below the root no file or subdirectory the
/// manifest does not name remains; and every manifest child agrees
/// recursively.
pub open spec fn reconciled(remote: DirectoryV, local: LocalDirV, is_root: bool) -> bool
    decreases remote,
{
    &&& forall|i: int|
        0 <= i < remote.files.len() ==> lookup(local.files, (#[trigger] remote.files[i]).0)
            == Some(remote.files[i].1.sha)
    &&& !is_root ==> forall|i: int|
        0 <= i < local.files.len() ==> match lookup(
            remote.files,
            (#[trigger] local.files[i]).0,
        ) {
            Some(f) => f.sha == local.files[i].1,
            None => false,
        }
    &&& !is_root ==> forall|i: int|
        0 <= i < local.dirs.len() ==> lookup(remote.children, (#[trigger] local.dirs[i]).0)
            is Some
    &&& forall|i: int|
        0 <= i < remote.children.len() ==> {
            &&& lookup(local.dirs, (#[trigger] remote.children[i]).0) is Some
            &&& reconciled(
                remote.children[i].1,
                local_child(local, remote.children[i].0),
                false,
            )
        }
}

/// A plan that performs no deletion and no fetch at any level.
pub open spec fn plan_empty(p: DirPlanV) -> bool
    decreases p,
{
    &&& p.delete_dirs.len() == 0
    &&& p.delete_files.len() == 0
    &&& p.fetches.len() == 0
    &&& forall|i: int| 0 <= i < p.children.len() ==> plan_empty((#[trigger] p.children[i]).1)
}

/// Root exemption: at the root level the plan never deletes anything, so
/// files and subdirectories present at the root path but absent from the
/// manifest are left alone, on this and hence on every run.
pub proof fn lemma_root_exemption(remote: DirectoryV, local: LocalDirV)
    ensures
        plan_spec(remote, local, true).delete_dirs.len() == 0,
        plan_spec(remote, local, true).delete_files.len() == 0,
{
}

/// Fetch-set minimality: below the root, a local file whose name and digest
/// both match a manifest entry is neither downloaded again nor deleted.
pub proof fn lemma_fetch_minimality(
    remote: DirectoryV,
    local: LocalDirV,
    name: Seq<char>,
    sha: Seq<char>,
)
    requires
        distinct_keys(remote.files),
        distinct_keys(local.files),
        lookup(local.files, name) == Some(sha),
        match lookup(remote.files, name) {
            Some(f) => f.sha == sha,
            None => false,
        },
    ensures
        forall|i: int|
            0 <= i < plan_spec(remote, local, false).fetches.len() ==> (#[trigger] plan_spec(
                remote,
                local,
                false,
            ).fetches[i]).0 != name,
        forall|i: int|
            0 <= i < plan_spec(remote, local, false).delete_files.len() ==> plan_spec(
                remote,
                local,
                false,
            ).delete_files[i] != name,
{
    let p = plan_spec(remote, local, false);
    assert forall|i: int| 0 <= i < p.fetches.len() implies (#[trigger] p.fetches[i]).0
        != name by {
        if p.fetches[i].0 == name {
            let elem = p.fetches[i];
            Seq::lemma_filter_pred(remote.files, needs_fetch(local.files), i);
            assert(remote.files.filter(needs_fetch(local.files)).contains(elem));
            Seq::lemma_filter_contains_rev(remote.files, needs_fetch(local.files), elem);
            let j = choose|j: int| 0 <= j < remote.files.len() && remote.files[j] == elem;
            lemma_lookup_present(remote.files, j);
            assert(lookup(remote.files, name) == Some(elem.1));
            assert(!needs_fetch(local.files)(elem));
        }
    }
    assert forall|i: int| 0 <= i < p.delete_files.len() implies p.delete_files[i] != name by {
        if p.delete_files[i] == name {
            let stale = local.files.filter(stale_file(remote.files));
            assert(p.delete_files[i] == stale[i].0);
            let elem = stale[i];
            Seq::lemma_filter_pred(local.files, stale_file(remote.files), i);
            assert(stale.contains(elem));
            Seq::lemma_filter_contains_rev(local.files, stale_file(remote.files), elem);
            let j = choose|j: int| 0 <= j < local.files.len() && local.files[j] == elem;
            lemma_lookup_present(local.files, j);
            assert(lookup(local.files, name) == Some(elem.1));
            assert(stale_file(remote.files)(elem));
        }
    }
}

/// Fetch-set completeness: below the root, every manifest file is either
/// already correct locally, by name and digest, or in the plan's fetch set.
pub proof fn lemma_fetch_completeness(remote: DirectoryV, local: LocalDirV)
    ensures
        forall|i: int|
            0 <= i < remote.files.len() ==> {
                ||| plan_spec(remote, local, false).fetches.contains(#[trigger] remote.files[i])
                ||| lookup(local.files, remote.files[i].0) == Some(remote.files[i].1.sha)
            },
{
    assert forall|i: int| 0 <= i < remote.files.len() implies {
        ||| plan_spec(remote, local, false).fetches.contains(#[trigger] remote.files[i])
        ||| lookup(local.files, remote.files[i].0) == Some(remote.files[i].1.sha)
    } by {
        if lookup(local.files, remote.files[i].0) != Some(remote.files[i].1.sha) {
            assert(needs_fetch(local.files)(remote.files[i]));
            Seq::lemma_filter_contains(remote.files, needs_fetch(local.files), i);
        }
    }
}

/// Idempotence: planning against a tree that already agrees with the
/// manifest yields a plan that deletes nothing and fetches nothing, at any
/// level. At the root this needs the manifest to declare no root-level
/// files, since root files are fetched unconditionally on every run.
pub proof fn lemma_idempotence(remote: DirectoryV, local: LocalDirV, is_root: bool)
    requires
        reconciled(remote, local, is_root),
        is_root ==> remote.files.len() == 0,
    ensures
        plan_empty(plan_spec(remote, local, is_root)),
    decreases remote,
{
    let p = plan_spec(remote, local, is_root);
    if !is_root {
        assert(local.dirs.all(|d: (Seq<char>, LocalDirV)| !unknown_dir(remote.children)(d)));
        local.dirs.lemma_all_neg_filter_empty(unknown_dir(remote.children));
        assert(local.files.all(|q: (Seq<char>, Seq<char>)| !stale_file(remote.files)(q)));
        local.files.lemma_all_neg_filter_empty(stale_file(remote.files));
        assert(remote.files.all(|f: (Seq<char>, FileV)| !needs_fetch(local.files)(f)));
        remote.files.lemma_all_neg_filter_empty(needs_fetch(local.files));
    }
    assert forall|i: int| 0 <= i < p.children.len() implies plan_empty(
        (#[trigger] p.children[i]).1,
    ) by {
        assert(reconciled(remote.children[i].1, local_child(local, remote.children[i].0), false));
        lemma_idempotence(remote.children[i].1, local_child(local, remote.children[i].0), false);
    }
}

/// The pair a fetched manifest file leaves on disk: its name and its digest.
pub open spec fn fetched_entry() -> spec_fn((Seq<char>, FileV)) -> (Seq<char>, Seq<char>) {
    |p: (Seq<char>, FileV)| (p.0, p.1.sha)
}

/// The local tree a successful run leaves behind: every manifest file holds
/// content hashing to its declared digest (fetched bytes are verified before
/// they are kept, and kept files matched already); every manifest child
/// exists and is reconciled recursively; at the root, and only there, local
/// entries the manifest does not name survive unchanged.
pub open spec fn after_run(remote: DirectoryV, local: LocalDirV, is_root: bool) -> LocalDirV
    decreases remote,
{
    LocalDirV {
        files: remote.files.map_values(fetched_entry()) + if is_root {
            local.files.filter(
                |q: (Seq<char>, Seq<char>)| lookup(remote.files, q.0) is None,
            )
        } else {
            Seq::empty()
        },
        dirs: Seq::new(
            remote.children.len(),
            |i: int|
                if 0 <= i < remote.children.len() {
                    (
                        remote.children[i].0,
                        after_run(
                            remote.children[i].1,
                            local_child(local, remote.children[i].0),
                            false,
                        ),
                    )
                } else {
                    (Seq::empty(), LocalDirV { files: Seq::empty(), dirs: Seq::empty() })
                },
        ) + if is_root {
            local.dirs.filter(|d: (Seq<char>, LocalDirV)| lookup(remote.children, d.0) is None)
        } else {
            Seq::empty()
        },
    }
}

proof fn lemma_lookup_append<V>(a: Seq<(Seq<char>, V)>, b: Seq<(Seq<char>, V)>, name: Seq<char>)
    ensures
        lookup(a + b, name) == (if lookup(a, name) is Some {
            lookup(a, name)
        } else {
            lookup(b, name)
        }),
    decreases a.len(),
{
    if a.len() == 0 {
        assert(a + b =~= b);
    } else {
        assert((a + b)[0] == a[0]);
        assert((a + b).drop_first() =~= a.drop_first() + b);
        lemma_lookup_append(a.drop_first(), b, name);
    }
}

/// Convergence: for any local starting state, a successful run leaves a tree
/// that agrees with the manifest — every manifest file present under its
/// declared digest, every unknown entry below the root gone, and the root's
/// own stray entries untouched.
pub proof fn lemma_convergence(remote: DirectoryV, local: LocalDirV, is_root: bool)
    requires
        dv_wf(remote),
    ensures
        reconciled(remote, after_run(remote, local, is_root), is_root),
    decreases remote,
{
    let after = after_run(remote, local, is_root);
    let mapped = remote.files.map_values(fetched_entry());
    let newdirs = after_run(remote, local, false).dirs;
    let extras = local.dirs.filter(
        |d: (Seq<char>, LocalDirV)| lookup(remote.children, d.0) is None,
    );
    assert(newdirs =~= after.dirs.take(remote.children.len() as int));
    assert(forall|i: int|
        0 <= i < newdirs.len() ==> (#[trigger] newdirs[i]) == (
            remote.children[i].0,
            after_run(remote.children[i].1, local_child(local, remote.children[i].0), false),
        ));
    assert(distinct_keys(mapped));
    assert(distinct_keys(newdirs));
    if is_root {
        assert(after.dirs =~= newdirs + extras);
    } else {
        assert(after.files =~= mapped);
        assert(after.dirs =~= newdirs);
    }

    assert forall|i: int| 0 <= i < remote.files.len() implies lookup(
        after.files,
        (#[trigger] remote.files[i]).0,
    ) == Some(remote.files[i].1.sha) by {
        lemma_lookup_present(mapped, i);
        if is_root {
            lemma_lookup_append(
                mapped,
                local.files.filter(|q: (Seq<char>, Seq<char>)| lookup(remote.files, q.0) is None),
                remote.files[i].0,
            );
        }
    }

    if !is_root {
        assert forall|i: int| 0 <= i < after.files.len() implies match lookup(
            remote.files,
            (#[trigger] after.files[i]).0,
        ) {
            Some(f) => f.sha == after.files[i].1,
            None => false,
        } by {
            lemma_lookup_present(remote.files, i);
        }
        assert forall|i: int| 0 <= i < after.dirs.len() implies lookup(
            remote.children,
            (#[trigger] after.dirs[i]).0,
        ) is Some by {
            lemma_lookup_present(remote.children, i);
        }
    }

    assert forall|i: int| 0 <= i < remote.children.len() implies {
        &&& lookup(after.dirs, (#[trigger] remote.children[i]).0) is Some
        &&& reconciled(remote.children[i].1, local_child(after, remote.children[i].0), false)
    } by {
        let cname = remote.children[i].0;
        lemma_lookup_present(newdirs, i);
        if is_root {
            lemma_lookup_append(newdirs, extras, cname);
        }
        assert(lookup(after.dirs, cname) == Some(newdirs[i].1));
        assert(dv_wf(remote.children[i].1));
        lemma_convergence(remote.children[i].1, local_child(local, cname), false);
    }
}

/// The number of fetch tasks executing a plan spawns, over all levels.
pub open spec fn plan_fetch_count(p: DirPlanV) -> nat
    decreases p, 1int,
{
    p.fetches.len() + children_fetch_count(p.children, 0)
}

/// The fetch tasks of the child plans from index `i` on.
pub open spec fn children_fetch_count(cs: Seq<(Seq<char>, DirPlanV)>, i: int) -> nat
    decreases cs, cs.len() - i,
{
    if i < 0 || i >= cs.len() {
        0
    } else {
        plan_fetch_count(cs[i].1) + children_fetch_count(cs, i + 1)
    }
}

impl DirPlan {
    /// The number of fetch tasks executing this plan spawns: the count a
    /// run announces in its `Length` event once the whole tree is walked.
    /// `None` when the count does not fit in `usize`.
    pub fn total_fetches(&self) -> (r: Option<usize>)
        ensures
            match r {
                Some(n) => n == plan_fetch_count(self.deep_view()),
                None => plan_fetch_count(self.deep_view()) > usize::MAX,
            },
        decreases *self,
    {
        let ghost dp = self.deep_view();
        proof {
            assert(dp.fetches.len() == self.fetches@.len());
        }
        let mut total: usize = self.fetches.len();
        let mut i: usize = 0;
        while i < self.children.len()
            invariant
                i <= self.children@.len(),
                dp == self.deep_view(),
                dp.children.len() == self.children@.len(),
                plan_fetch_count(dp) == total + children_fetch_count(dp.children, i as int),
            decreases self.children@.len() - i,
        {
            proof {
                assert(dp.children[i as int] == (
                    self.children@[i as int].0@,
                    self.children@[i as int].1.deep_view(),
                ));
                assert(children_fetch_count(dp.children, i as int) == plan_fetch_count(
                    dp.children[i as int].1,
                ) + children_fetch_count(dp.children, i as int + 1));
            }
            let sub = match self.children[i].1.total_fetches() {
                Some(c) => c,
                None => {
                    return None;
                },
            };
            if sub > usize::MAX - total {
                return None;
            }
            total = total + sub;
            i += 1;
        }
        proof {
            assert(children_fetch_count(dp.children, i as int) == 0);
        }
        Some(total)
    }
}

/// Running twice: the state a successful run leaves behind yields an empty
/// plan on the next run — no fetch, no deletion — provided the manifest
/// declares no root-level files, which are re-fetched on every run.
pub proof fn lemma_second_run_empty(remote: DirectoryV, local: LocalDirV)
    requires
        dv_wf(remote),
        remote.files.len() == 0,
    ensures
        plan_empty(plan_spec(remote, after_run(remote, local, true), true)),
{
    lemma_convergence(remote, local, true);
    lemma_idempotence(remote, after_run(remote, local, true), true);
}

} // verus!
