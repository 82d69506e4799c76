//! Rows: dropping projects and folders, and dropping what refers to them.

use crate::collections::{
    contains_last, list_contains, list_remove, list_sift, reversed, sifted, without,
};
use crate::state::{
    FolderData, FolderView, ProjectData, ProjectView, folder_ids, folder_views, project_ids,
    project_views,
};
use crate::text::{has_prefix, same, starts_with, strip_prefix, texts};
use vstd::prelude::*;

verus! {

/// Which rows stay, by their id.
pub enum IdFilter<'a> {
    /// All but the one called so.
    NotId(&'a str),
    /// Those that are listed.
    In(&'a Vec<String>),
    /// Those whose id does not start so.
    NotPrefixed(&'a str),
    /// Those of this machine and of the listed connections.
    OfConnections(&'a Vec<String>),
}

/// What an [`IdFilter`] stands for.
pub enum IdFilterView {
    NotId(Seq<char>),
    In(Seq<Seq<char>>),
    NotPrefixed(Seq<char>),
    OfConnections(Seq<Seq<char>>),
}

impl<'a> View for IdFilter<'a> {
    type V = IdFilterView;

    open spec fn view(&self) -> IdFilterView {
        match self {
            IdFilter::NotId(id) => IdFilterView::NotId(id@),
            IdFilter::In(ids) => IdFilterView::In(texts(ids@)),
            IdFilter::NotPrefixed(p) => IdFilterView::NotPrefixed(p@),
            IdFilter::OfConnections(cs) => IdFilterView::OfConnections(texts(cs@)),
        }
    }
}

/// What `s` holds before its first colon.
pub open spec fn before_colon(s: Seq<char>) -> Seq<char>
    decreases s.len(),
{
    if s.len() == 0 || s[0] == ':' {
        Seq::empty()
    } else {
        seq![s[0]] + before_colon(s.skip(1))
    }
}

/// The connection that a client's id names: its second part.
pub open spec fn connection_of(id: Seq<char>) -> Seq<char> {
    before_colon(id.skip("remote:"@.len() as int))
}

/// Whether the filter lets a row called `id` stay.
pub open spec fn admits(f: IdFilterView, id: Seq<char>) -> bool {
    match f {
        IdFilterView::NotId(x) => id != x,
        IdFilterView::In(ids) => ids.contains(id),
        IdFilterView::NotPrefixed(p) => !has_prefix(id, p),
        IdFilterView::OfConnections(cs) => has_prefix(id, "remote:"@) ==> cs.contains(
            connection_of(id),
        ),
    }
}

/// The projects that the filter lets stay, in order.
pub open spec fn kept_rows(ps: Seq<ProjectView>, f: IdFilterView) -> Seq<ProjectView>
    decreases ps.len(),
{
    if ps.len() == 0 {
        ps
    } else if admits(f, ps.last().id) {
        kept_rows(ps.drop_last(), f).push(ps.last())
    } else {
        kept_rows(ps.drop_last(), f)
    }
}

/// The folders that the filter lets stay, in order.
pub open spec fn kept_folders(fs: Seq<FolderView>, f: IdFilterView) -> Seq<FolderView>
    decreases fs.len(),
{
    if fs.len() == 0 {
        fs
    } else if admits(f, fs.last().id) {
        kept_folders(fs.drop_last(), f).push(fs.last())
    } else {
        kept_folders(fs.drop_last(), f)
    }
}

/// `p` without the child `id`.
pub open spec fn without_child_id(p: ProjectView, id: Seq<char>) -> ProjectView {
    ProjectView { worktree_ids: without(p.worktree_ids, id), ..p }
}

/// `ps`, none of which has the child `id`.
pub open spec fn without_children(ps: Seq<ProjectView>, id: Seq<char>) -> Seq<ProjectView> {
    Seq::new(ps.len(), |i: int| without_child_id(ps[i], id))
}

/// `fs`, none of which holds the project `id`.
pub open spec fn folders_without(fs: Seq<FolderView>, id: Seq<char>) -> Seq<FolderView> {
    Seq::new(
        fs.len(),
        |i: int| FolderView { project_ids: without(fs[i].project_ids, id), ..fs[i] },
    )
}

/// `fs`, each with its projects sifted.
pub open spec fn folders_sifted(fs: Seq<FolderView>, filter: Seq<Seq<char>>, keep: bool) -> Seq<
    FolderView,
> {
    Seq::new(
        fs.len(),
        |i: int| FolderView { project_ids: sifted(fs[i].project_ids, filter, keep), ..fs[i] },
    )
}

/// What `s` holds before its first colon.
pub fn take_before_colon<'a>(s: &'a str) -> (r: &'a str)
    ensures
        r@ == before_colon(s@),
{
    let n: usize = s.unicode_len();
    let mut i: usize = 0;
    proof {
        assert(s@.skip(0) =~= s@);
        assert(s@.take(0) + before_colon(s@.skip(0)) =~= before_colon(s@));
    }
    while i < n && s.get_char(i) != ':'
        invariant
            i <= n,
            n == s@.len(),
            s@.take(i as int) + before_colon(s@.skip(i as int)) == before_colon(s@),
        decreases n - i,
    {
        proof {
            let t = s@.skip(i as int);
            assert(t.skip(1) =~= s@.skip(i + 1));
            assert(s@.take(i + 1) + before_colon(s@.skip(i + 1)) =~= s@.take(i as int)
                + before_colon(t));
        }
        i = i + 1;
    }
    proof {
        assert(s@.take(i as int) + before_colon(s@.skip(i as int)) =~= s@.subrange(0, i as int));
    }
    s.substring_char(0, i)
}

impl<'a> IdFilter<'a> {
    /// Whether the filter lets a row called `id` stay.
    pub fn admits(&self, id: &str) -> (r: bool)
        ensures
            r == admits(self@, id@),
    {
        match self {
            IdFilter::NotId(x) => !same(id, x),
            IdFilter::In(ids) => list_contains(ids, id),
            IdFilter::NotPrefixed(p) => !starts_with(id, p),
            IdFilter::OfConnections(cs) => match strip_prefix(id, "remote:") {
                Some(rest) => list_contains(cs, take_before_colon(rest)),
                None => true,
            },
        }
    }
}

/// Keep the projects that the filter lets stay.
pub fn retain_rows(projects: &mut Vec<ProjectData>, f: &IdFilter)
    ensures
        project_views(final(projects)@) == kept_rows(project_views(old(projects)@), f@),
{
    let mut all: Vec<ProjectData> = Vec::new();
    std::mem::swap(&mut all, projects);
    let ghost start = all@;
    let ghost ps = project_views(start);
    let mut rest = reversed(all);
    let ghost mut taken: int = 0;
    let mut out: Vec<ProjectData> = Vec::new();
    proof {
        assert(ps.take(0) =~= Seq::<ProjectView>::empty());
        assert(project_views(out@) =~= Seq::<ProjectView>::empty());
    }
    while rest.len() > 0
        invariant
            0 <= taken <= start.len(),
            rest@.len() == start.len() - taken,
            ps == project_views(start),
            forall|j: int| 0 <= j < rest@.len() ==> rest@[j] == start[start.len() - 1 - j],
            project_views(out@) == kept_rows(ps.take(taken), f@),
        decreases rest.len(),
    {
        let p = rest.pop().unwrap();
        proof {
            assert(p == start[taken]);
            assert(ps.take(taken + 1).drop_last() =~= ps.take(taken));
            assert(ps.take(taken + 1).last() == p@);
        }
        if f.admits(p.id.as_str()) {
            let ghost before = out@;
            out.push(p);
            proof {
                assert(project_views(out@) =~= project_views(before).push(p@));
            }
        }
        proof {
            taken = taken + 1;
        }
    }
    proof {
        assert(ps.take(taken) =~= ps);
    }
    *projects = out;
}

/// Keep the folders that the filter lets stay.
pub fn retain_folders(folders: &mut Vec<FolderData>, f: &IdFilter)
    ensures
        folder_views(final(folders)@) == kept_folders(folder_views(old(folders)@), f@),
{
    let mut all: Vec<FolderData> = Vec::new();
    std::mem::swap(&mut all, folders);
    let ghost start = all@;
    let ghost fs = folder_views(start);
    let mut rest = reversed(all);
    let ghost mut taken: int = 0;
    let mut out: Vec<FolderData> = Vec::new();
    proof {
        assert(fs.take(0) =~= Seq::<FolderView>::empty());
        assert(folder_views(out@) =~= Seq::<FolderView>::empty());
    }
    while rest.len() > 0
        invariant
            0 <= taken <= start.len(),
            rest@.len() == start.len() - taken,
            fs == folder_views(start),
            forall|j: int| 0 <= j < rest@.len() ==> rest@[j] == start[start.len() - 1 - j],
            folder_views(out@) == kept_folders(fs.take(taken), f@),
        decreases rest.len(),
    {
        let p = rest.pop().unwrap();
        proof {
            assert(p == start[taken]);
            assert(fs.take(taken + 1).drop_last() =~= fs.take(taken));
            assert(fs.take(taken + 1).last() == p@);
        }
        if f.admits(p.id.as_str()) {
            let ghost before = out@;
            out.push(p);
            proof {
                assert(folder_views(out@) =~= folder_views(before).push(p@));
            }
        }
        proof {
            taken = taken + 1;
        }
    }
    proof {
        assert(fs.take(taken) =~= fs);
    }
    *folders = out;
}

/// Take the child `id` out of every project.
pub fn scrub_children(projects: &mut Vec<ProjectData>, id: &str)
    ensures
        project_views(final(projects)@) == without_children(project_views(old(projects)@), id@),
{
    let ghost start = projects@;
    let mut i: usize = 0;
    while i < projects.len()
        invariant
            i <= projects@.len(),
            projects@.len() == start.len(),
            forall|j: int| 0 <= j < i ==> (#[trigger] projects@[j])@ == without_child_id(start[j]@, id@),
            forall|j: int| i <= j < start.len() ==> projects@[j] == start[j],
        decreases projects@.len() - i,
    {
        list_remove(&mut projects[i].worktree_ids, id);
        i = i + 1;
    }
    proof {
        assert(project_views(projects@) =~= without_children(project_views(start), id@));
    }
}

/// Take the project `id` out of every folder.
pub fn scrub_folders(folders: &mut Vec<FolderData>, id: &str)
    ensures
        folder_views(final(folders)@) == folders_without(folder_views(old(folders)@), id@),
{
    let ghost start = folders@;
    let mut i: usize = 0;
    while i < folders.len()
        invariant
            i <= folders@.len(),
            folders@.len() == start.len(),
            forall|j: int|
                0 <= j < i ==> (#[trigger] folders@[j])@ == (FolderView {
                    project_ids: without(start[j]@.project_ids, id@),
                    ..start[j]@
                }),
            forall|j: int| i <= j < start.len() ==> folders@[j] == start[j],
        decreases folders@.len() - i,
    {
        list_remove(&mut folders[i].project_ids, id);
        i = i + 1;
    }
    proof {
        assert(folder_views(folders@) =~= folders_without(folder_views(start), id@));
    }
}

/// Sift the projects of every folder.
pub fn sift_folders(folders: &mut Vec<FolderData>, filter: &Vec<String>, keep: bool)
    ensures
        folder_views(final(folders)@) == folders_sifted(
            folder_views(old(folders)@),
            texts(filter@),
            keep,
        ),
{
    let ghost start = folders@;
    let mut i: usize = 0;
    while i < folders.len()
        invariant
            i <= folders@.len(),
            folders@.len() == start.len(),
            forall|j: int|
                0 <= j < i ==> (#[trigger] folders@[j])@ == (FolderView {
                    project_ids: sifted(start[j]@.project_ids, texts(filter@), keep),
                    ..start[j]@
                }),
            forall|j: int| i <= j < start.len() ==> folders@[j] == start[j],
        decreases folders@.len() - i,
    {
        list_sift(&mut folders[i].project_ids, filter, keep);
        i = i + 1;
    }
    proof {
        assert(folder_views(folders@) =~= folders_sifted(
            folder_views(start),
            texts(filter@),
            keep,
        ));
    }
}

/// The ids of all projects, in order.
pub fn list_project_ids(projects: &Vec<ProjectData>) -> (r: Vec<String>)
    ensures
        texts(r@) == project_ids(project_views(projects@)),
{
    let mut out: Vec<String> = Vec::new();
    let mut i: usize = 0;
    while i < projects.len()
        invariant
            i <= projects@.len(),
            out@.len() == i,
            forall|j: int| 0 <= j < i ==> out@[j]@ == projects@[j].id@,
        decreases projects@.len() - i,
    {
        out.push(projects[i].id.clone());
        i = i + 1;
    }
    proof {
        assert(texts(out@) =~= project_ids(project_views(projects@)));
    }
    out
}

/// The ids of all folders, in order.
pub fn list_folder_ids(folders: &Vec<FolderData>) -> (r: Vec<String>)
    ensures
        texts(r@) == folder_ids(folder_views(folders@)),
{
    let mut out: Vec<String> = Vec::new();
    let mut i: usize = 0;
    while i < folders.len()
        invariant
            i <= folders@.len(),
            out@.len() == i,
            forall|j: int| 0 <= j < i ==> out@[j]@ == folders@[j].id@,
        decreases folders@.len() - i,
    {
        out.push(folders[i].id.clone());
        i = i + 1;
    }
    proof {
        assert(texts(out@) =~= folder_ids(folder_views(folders@)));
    }
    out
}

/// Dropping rows keeps exactly the ids that the filter admits.
pub proof fn kept_rows_ids(ps: Seq<ProjectView>, f: IdFilterView)
    ensures
        forall|x: Seq<char>| #[trigger]
            project_ids(kept_rows(ps, f)).contains(x) <==> project_ids(ps).contains(x) && admits(
                f,
                x,
            ),
    decreases ps.len(),
{
    if ps.len() > 0 {
        kept_rows_ids(ps.drop_last(), f);
        let ids = project_ids(ps);
        contains_last(ids);
        assert(ids.drop_last() =~= project_ids(ps.drop_last()));
        if admits(f, ps.last().id) {
            let kept = project_ids(kept_rows(ps, f));
            contains_last(kept);
            assert(kept.drop_last() =~= project_ids(kept_rows(ps.drop_last(), f)));
        }
    }
}

} // verus!
