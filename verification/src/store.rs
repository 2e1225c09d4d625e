//! The metadata store: one record per known article, plus the set of known
//! category names. Two instances live during a sync run: the local store
//! (authoritative before the run) and the remote mirror (decoded fresh from
//! the master record). Both are snapshots held in memory; the relational
//! file image and the transport encoding are produced by the codec modules.

use vstd::prelude::*;

verus! {

/// One article row: a relative slash-separated path under the article root,
/// the identifier of the corresponding remote post, the modification time as
/// of the last successful sync, and the tombstone flag.
pub struct BlogsInfoDO {
    pub blog_path: String,
    pub postid: i32,
    pub timestamp: i64,
    pub deleted: bool,
}

/// The mathematical image of one article row.
#[verifier::ext_equal]
pub ghost struct RecView {
    pub path: Seq<char>,
    pub postid: int,
    pub timestamp: int,
    pub deleted: bool,
}

impl View for BlogsInfoDO {
    type V = RecView;

    open spec fn view(&self) -> RecView {
        RecView {
            path: self.blog_path@,
            postid: self.postid as int,
            timestamp: self.timestamp as int,
            deleted: self.deleted,
        }
    }
}

impl BlogsInfoDO {
    /// An explicit copy whose image is known to equal the original's.
    pub fn duplicate(&self) -> (r: BlogsInfoDO)
        ensures
            r@ == self@,
    {
        BlogsInfoDO {
            blog_path: self.blog_path.clone(),
            postid: self.postid,
            timestamp: self.timestamp,
            deleted: self.deleted,
        }
    }
}

/// The image of a whole store: the article rows in insertion order and the
/// category names in insertion order.
pub ghost struct StoreView {
    pub arts: Seq<RecView>,
    pub cats: Seq<Seq<char>>,
}

/// The metadata store itself.
pub struct Store {
    articles: Vec<BlogsInfoDO>,
    categories: Vec<String>,
}

impl View for Store {
    type V = StoreView;

    closed spec fn view(&self) -> StoreView {
        StoreView {
            arts: self.articles@.map_values(|r: BlogsInfoDO| r@),
            cats: self.categories@.map_values(|c: String| c@),
        }
    }
}

impl StoreView {
    /// A path stands among the non-deleted rows.
    pub open spec fn has_existing_path(self, p: Seq<char>) -> bool {
        exists|i: int|
            0 <= i < self.arts.len() && !self.arts[i].deleted && self.arts[i].path == p
    }

    /// A remote identifier stands among the non-deleted rows.
    pub open spec fn has_existing_postid(self, id: int) -> bool {
        exists|i: int|
            0 <= i < self.arts.len() && !self.arts[i].deleted && self.arts[i].postid == id
    }

    /// A remote identifier stands among the tombstoned rows.
    pub open spec fn has_tombstoned_postid(self, id: int) -> bool {
        exists|i: int|
            0 <= i < self.arts.len() && self.arts[i].deleted && self.arts[i].postid == id
    }

    /// A category name is known.
    pub open spec fn has_category(self, c: Seq<char>) -> bool {
        self.cats.contains(c)
    }

    /// Some row, live or tombstoned, carries a remote identifier.
    pub open spec fn has_postid(self, id: int) -> bool {
        exists|i: int| 0 <= i < self.arts.len() && (#[trigger] self.arts[i]).postid == id
    }

    /// Paths are unique among non-deleted rows, remote identifiers are unique
    /// among non-deleted rows, and category names are unique.
    pub open spec fn wf(self) -> bool {
        &&& forall|i: int, j: int|
            0 <= i < j < self.arts.len() && !self.arts[i].deleted && !self.arts[j].deleted
                ==> self.arts[i].path != self.arts[j].path && self.arts[i].postid
                != self.arts[j].postid
        &&& forall|i: int, j: int|
            0 <= i < j < self.cats.len() ==> self.cats[i] != self.cats[j]
    }

    /// No remote identifier stands both on a live row and on a tombstone.
    pub open spec fn clean(self) -> bool {
        forall|i: int, j: int|
            0 <= i < self.arts.len() && 0 <= j < self.arts.len() && !self.arts[i].deleted
                && self.arts[j].deleted ==> self.arts[i].postid != self.arts[j].postid
    }
}

/// The timestamp of the first row carrying a remote identifier, live or
/// tombstoned, as the storage layer's first-row query returns it.
pub open spec fn first_match(sv: StoreView, id: int, ts: int) -> bool {
    exists|i: int|
        0 <= i < sv.arts.len() && (#[trigger] sv.arts[i]).postid == id && sv.arts[i].timestamp
            == ts && (forall|j: int| 0 <= j < i ==> sv.arts[j].postid != id)
}

/// The row as it stands after its timestamp is set to `ts`, if its remote
/// identifier is `id`; unchanged otherwise.
pub open spec fn rec_with_ts(r: RecView, id: int, ts: int) -> RecView {
    if r.postid == id {
        RecView { timestamp: ts, ..r }
    } else {
        r
    }
}

/// The row as it stands after a soft delete of remote identifier `id`.
pub open spec fn rec_deleted_if(r: RecView, id: int) -> RecView {
    if r.postid == id {
        RecView { deleted: true, ..r }
    } else {
        r
    }
}

impl Store {
    /// Every row's identifier and timestamp fit their machine types: the
    /// view only ever arises from machine-typed fields.
    pub proof fn lemma_view_ranges(&self)
        ensures
            forall|i: int|
                0 <= i < self@.arts.len() ==> i32::MIN <= (#[trigger] self@.arts[i]).postid
                    <= i32::MAX && i64::MIN <= self@.arts[i].timestamp <= i64::MAX,
    {
        assert forall|i: int|
            0 <= i < self@.arts.len() implies i32::MIN <= (#[trigger] self@.arts[i]).postid
            <= i32::MAX && i64::MIN <= self@.arts[i].timestamp <= i64::MAX by {
            assert(self@.arts[i] == self.articles@[i]@);
        }
    }

    /// An empty store: no rows, no categories.
    pub fn new() -> (r: Store)
        ensures
            r@.arts =~= Seq::<RecView>::empty(),
            r@.cats =~= Seq::<Seq<char>>::empty(),
            r@.wf(),
            r@.clean(),
    {
        Store { articles: Vec::new(), categories: Vec::new() }
    }

    /// How many rows the store holds, tombstones included.
    pub fn len(&self) -> (n: usize)
        ensures
            n == self@.arts.len(),
    {
        self.articles.len()
    }

    /// The row at one position.
    pub fn row(&self, i: usize) -> (r: &BlogsInfoDO)
        requires
            i < self@.arts.len(),
        ensures
            r@ == self@.arts[i as int],
    {
        &self.articles[i]
    }

    /// Whether a category name is already known.
    pub fn has_category(&self, name: &String) -> (r: bool)
        ensures
            r == self@.has_category(name@),
    {
        let mut i: usize = 0;
        while i < self.categories.len()
            invariant
                i <= self.categories.len(),
                forall|k: int| 0 <= k < i ==> self@.cats[k] != name@,
            decreases self.categories.len() - i,
        {
            if self.categories[i] == *name {
                assert(self@.cats[i as int] == name@);
                return true;
            }
            i += 1;
        }
        false
    }

    /// Register a category name not yet known.
    pub fn new_category(&mut self, name: String)
        requires
            old(self)@.wf(),
            !old(self)@.has_category(name@),
        ensures
            final(self)@.cats =~= old(self)@.cats.push(name@),
            final(self)@.arts == old(self)@.arts,
            final(self)@.wf(),
            final(self)@.clean() == old(self)@.clean(),
    {
        self.categories.push(name);
        proof {
            assert(self@.cats =~= old(self)@.cats.push(name@));
            assert(self@.arts =~= old(self)@.arts);
            assert forall|i: int, j: int|
                0 <= i < j < self@.cats.len() implies self@.cats[i] != self@.cats[j] by {
                if j < old(self)@.cats.len() {
                    assert(old(self)@.cats[i] != old(self)@.cats[j]);
                } else {
                    assert(self@.cats[j] == name@);
                    assert(old(self)@.cats[i] != name@);
                }
            }
        }
    }

    /// Whether a remote identifier stands on a non-deleted row.
    pub fn has_existing_postid(&self, postid: i32) -> (r: bool)
        ensures
            r == self@.has_existing_postid(postid as int),
    {
        let mut i: usize = 0;
        while i < self.articles.len()
            invariant
                i <= self.articles.len(),
                forall|k: int|
                    0 <= k < i ==> !(!self@.arts[k].deleted && self@.arts[k].postid == postid
                        as int),
            decreases self.articles.len() - i,
        {
            if !self.articles[i].deleted && self.articles[i].postid == postid {
                assert(!self@.arts[i as int].deleted && self@.arts[i as int].postid == postid
                    as int);
                return true;
            }
            i += 1;
        }
        false
    }

    /// Whether a path stands on a non-deleted row.
    pub fn has_existing_path(&self, path: &String) -> (r: bool)
        ensures
            r == self@.has_existing_path(path@),
    {
        let mut i: usize = 0;
        while i < self.articles.len()
            invariant
                i <= self.articles.len(),
                forall|k: int|
                    0 <= k < i ==> !(!self@.arts[k].deleted && self@.arts[k].path == path@),
            decreases self.articles.len() - i,
        {
            if !self.articles[i].deleted && self.articles[i].blog_path == *path {
                assert(!self@.arts[i as int].deleted && self@.arts[i as int].path == path@);
                return true;
            }
            i += 1;
        }
        false
    }

    /// The timestamp and remote identifier of the non-deleted row carrying a
    /// path, if any.
    pub fn lookup_existing_path(&self, path: &String) -> (r: Option<(i64, i32)>)
        ensures
            match r {
                Some((ts, id)) => exists|i: int|
                    0 <= i < self@.arts.len() && !self@.arts[i].deleted && self@.arts[i].path
                        == path@ && self@.arts[i].timestamp == ts as int && self@.arts[i].postid
                        == id as int,
                None => !self@.has_existing_path(path@),
            },
    {
        let mut i: usize = 0;
        while i < self.articles.len()
            invariant
                i <= self.articles.len(),
                forall|k: int|
                    0 <= k < i ==> !(!self@.arts[k].deleted && self@.arts[k].path == path@),
            decreases self.articles.len() - i,
        {
            if !self.articles[i].deleted && self.articles[i].blog_path == *path {
                assert(!self@.arts[i as int].deleted && self@.arts[i as int].path == path@);
                return Some((self.articles[i].timestamp, self.articles[i].postid));
            }
            i += 1;
        }
        None
    }

    /// The timestamp of the non-deleted row carrying a remote identifier, if
    /// any.
    pub fn lookup_existing_postid(&self, postid: i32) -> (r: Option<i64>)
        ensures
            match r {
                Some(ts) => exists|i: int|
                    0 <= i < self@.arts.len() && !self@.arts[i].deleted && self@.arts[i].postid
                        == postid as int && self@.arts[i].timestamp == ts as int,
                None => !self@.has_existing_postid(postid as int),
            },
    {
        let mut i: usize = 0;
        while i < self.articles.len()
            invariant
                i <= self.articles.len(),
                forall|k: int|
                    0 <= k < i ==> !(!self@.arts[k].deleted && self@.arts[k].postid == postid
                        as int),
            decreases self.articles.len() - i,
        {
            if !self.articles[i].deleted && self.articles[i].postid == postid {
                assert(!self@.arts[i as int].deleted && self@.arts[i as int].postid == postid
                    as int);
                return Some(self.articles[i].timestamp);
            }
            i += 1;
        }
        None
    }

    /// Append one row. A non-deleted row may not repeat an existing path or
    /// remote identifier; a tombstone may always be added.
    pub fn push_row(&mut self, rec: BlogsInfoDO)
        requires
            old(self)@.wf(),
            !rec.deleted ==> !old(self)@.has_existing_path(rec.blog_path@)
                && !old(self)@.has_existing_postid(rec.postid as int),
        ensures
            final(self)@.arts =~= old(self)@.arts.push(rec@),
            final(self)@.cats == old(self)@.cats,
            final(self)@.wf(),
            old(self)@.clean() && (!rec.deleted ==> !old(self)@.has_tombstoned_postid(
                rec.postid as int,
            )) && (rec.deleted ==> !old(self)@.has_existing_postid(rec.postid as int))
                ==> final(self)@.clean(),
    {
        let ghost oldarts = self@.arts;
        let ghost r = rec@;
        self.articles.push(rec);
        proof {
            assert(self@.arts =~= oldarts.push(r));
            assert forall|i: int, j: int|
                0 <= i < j < self@.arts.len() && !self@.arts[i].deleted
                    && !self@.arts[j].deleted implies self@.arts[i].path != self@.arts[j].path
                && self@.arts[i].postid != self@.arts[j].postid by {
                if j == self@.arts.len() - 1 {
                    assert(self@.arts[j] == r);
                    assert(!old(self)@.has_existing_path(r.path) && !old(
                        self,
                    )@.has_existing_postid(r.postid));
                    assert(!(!oldarts[i].deleted && oldarts[i].path == r.path));
                    assert(!(!oldarts[i].deleted && oldarts[i].postid == r.postid));
                } else {
                    assert(!(!oldarts[i].deleted && !oldarts[j].deleted) || (oldarts[i].path
                        != oldarts[j].path && oldarts[i].postid != oldarts[j].postid));
                }
            }
            assert forall|i: int, j: int|
                0 <= i < j < self@.cats.len() implies self@.cats[i] != self@.cats[j] by {
                assert(old(self)@.cats[i] != old(self)@.cats[j]);
            }
            assert(self@.wf());
        }
    }

    /// Insert a new non-deleted row for a freshly created remote post.
    pub fn new_post(&mut self, blog_path: String, postid: i32, timestamp: i64)
        requires
            old(self)@.wf(),
            !old(self)@.has_existing_path(blog_path@),
            !old(self)@.has_existing_postid(postid as int),
        ensures
            final(self)@.arts =~= old(self)@.arts.push(
                RecView { path: blog_path@, postid: postid as int, timestamp: timestamp as int, deleted: false },
            ),
            final(self)@.cats == old(self)@.cats,
            final(self)@.wf(),
            old(self)@.clean() && !old(self)@.has_tombstoned_postid(postid as int)
                ==> final(self)@.clean(),
    {
        self.push_row(BlogsInfoDO { blog_path, postid, timestamp, deleted: false });
    }

    /// Set the timestamp of every row carrying a remote identifier.
    pub fn edit_post(&mut self, postid: i32, timestamp: i64)
        requires
            old(self)@.wf(),
        ensures
            final(self)@.arts =~= old(self)@.arts.map_values(
                |r: RecView| rec_with_ts(r, postid as int, timestamp as int),
            ),
            final(self)@.cats == old(self)@.cats,
            final(self)@.wf(),
            old(self)@.clean() ==> final(self)@.clean(),
    {
        let ghost oldarts = self@.arts;
        let ghost goal = oldarts.map_values(
            |r: RecView| rec_with_ts(r, postid as int, timestamp as int),
        );
        let mut i: usize = 0;
        while i < self.articles.len()
            invariant
                i <= self.articles.len(),
                self@.arts.len() == oldarts.len(),
                self@.cats == old(self)@.cats,
                forall|k: int| 0 <= k < i ==> self@.arts[k] == goal[k],
                forall|k: int| i <= k < oldarts.len() ==> self@.arts[k] == oldarts[k],
                goal == oldarts.map_values(
                    |r: RecView| rec_with_ts(r, postid as int, timestamp as int),
                ),
            decreases self.articles.len() - i,
        {
            if self.articles[i].postid == postid {
                let mut row = self.articles[i].duplicate();
                row.timestamp = timestamp;
                self.articles.set(i, row);
            }
            i += 1;
        }
        proof {
            assert(self@.arts =~= goal);
            assert forall|i: int, j: int|
                0 <= i < j < self@.arts.len() && !self@.arts[i].deleted
                    && !self@.arts[j].deleted implies self@.arts[i].path != self@.arts[j].path
                && self@.arts[i].postid != self@.arts[j].postid by {
                assert(!(!oldarts[i].deleted && !oldarts[j].deleted) || (oldarts[i].path
                    != oldarts[j].path && oldarts[i].postid != oldarts[j].postid));
            }
        }
    }

    /// Soft-delete every row carrying a remote identifier.
    pub fn delete_post(&mut self, postid: i32)
        requires
            old(self)@.wf(),
        ensures
            final(self)@.arts =~= old(self)@.arts.map_values(
                |r: RecView| rec_deleted_if(r, postid as int),
            ),
            final(self)@.cats == old(self)@.cats,
            final(self)@.wf(),
            old(self)@.clean() ==> final(self)@.clean(),
    {
        let ghost oldarts = self@.arts;
        let ghost goal = oldarts.map_values(|r: RecView| rec_deleted_if(r, postid as int));
        let mut i: usize = 0;
        while i < self.articles.len()
            invariant
                i <= self.articles.len(),
                self@.arts.len() == oldarts.len(),
                self@.cats == old(self)@.cats,
                forall|k: int| 0 <= k < i ==> self@.arts[k] == goal[k],
                forall|k: int| i <= k < oldarts.len() ==> self@.arts[k] == oldarts[k],
                goal == oldarts.map_values(|r: RecView| rec_deleted_if(r, postid as int)),
            decreases self.articles.len() - i,
        {
            if self.articles[i].postid == postid {
                let mut row = self.articles[i].duplicate();
                row.deleted = true;
                self.articles.set(i, row);
            }
            i += 1;
        }
        proof {
            assert(self@.arts =~= goal);
            assert forall|i: int, j: int|
                0 <= i < j < self@.arts.len() && !self@.arts[i].deleted
                    && !self@.arts[j].deleted implies self@.arts[i].path != self@.arts[j].path
                && self@.arts[i].postid != self@.arts[j].postid by {
                assert(!(!oldarts[i].deleted && !oldarts[j].deleted) || (oldarts[i].path
                    != oldarts[j].path && oldarts[i].postid != oldarts[j].postid));
            }
        }
    }

    /// The non-deleted rows, in insertion order.
    pub fn existing_records(&self) -> (r: Vec<BlogsInfoDO>)
        ensures
            r@.map_values(|b: BlogsInfoDO| b@) =~= self@.arts.filter(|rv: RecView| !rv.deleted),
    {
        broadcast use vstd::seq_lib::group_filter_ensures;

        let mut out: Vec<BlogsInfoDO> = Vec::new();
        let mut i: usize = 0;
        while i < self.articles.len()
            invariant
                i <= self.articles.len(),
                out@.map_values(|b: BlogsInfoDO| b@) =~= self@.arts.take(i as int).filter(
                    |rv: RecView| !rv.deleted,
                ),
            decreases self.articles.len() - i,
        {
            proof {
                self@.arts.lemma_take_succ_push(i as int);
                self@.arts.take(i as int).lemma_filter_push(
                    self@.arts[i as int],
                    |rv: RecView| !rv.deleted,
                );
            }
            if !self.articles[i].deleted {
                out.push(self.articles[i].duplicate());
            }
            assert(out@.map_values(|b: BlogsInfoDO| b@) =~= self@.arts.take(i + 1).filter(
                |rv: RecView| !rv.deleted,
            ));
            i += 1;
        }
        proof {
            assert(self@.arts.take(self.articles@.len() as int) =~= self@.arts);
        }
        out
    }

    /// The tombstoned rows, in insertion order.
    pub fn tombstoned_records(&self) -> (r: Vec<BlogsInfoDO>)
        ensures
            r@.map_values(|b: BlogsInfoDO| b@) =~= self@.arts.filter(|rv: RecView| rv.deleted),
    {
        let mut out: Vec<BlogsInfoDO> = Vec::new();
        let mut i: usize = 0;
        while i < self.articles.len()
            invariant
                i <= self.articles.len(),
                out@.map_values(|b: BlogsInfoDO| b@) =~= self@.arts.take(i as int).filter(
                    |rv: RecView| rv.deleted,
                ),
            decreases self.articles.len() - i,
        {
            proof {
                self@.arts.lemma_take_succ_push(i as int);
                self@.arts.take(i as int).lemma_filter_push(
                    self@.arts[i as int],
                    |rv: RecView| rv.deleted,
                );
            }
            if self.articles[i].deleted {
                out.push(self.articles[i].duplicate());
            }
            assert(out@.map_values(|b: BlogsInfoDO| b@) =~= self@.arts.take(i + 1).filter(
                |rv: RecView| rv.deleted,
            ));
            i += 1;
        }
        proof {
            assert(self@.arts.take(self.articles@.len() as int) =~= self@.arts);
        }
        out
    }

    /// The timestamp of the first row, live or tombstoned, carrying a
    /// remote identifier.
    pub fn lookup_any_postid(&self, postid: i32) -> (r: Option<i64>)
        ensures
            match r {
                Some(ts) => first_match(self@, postid as int, ts as int),
                None => forall|i: int|
                    0 <= i < self@.arts.len() ==> (#[trigger] self@.arts[i]).postid != postid
                        as int,
            },
    {
        let mut i: usize = 0;
        while i < self.articles.len()
            invariant
                i <= self.articles.len(),
                forall|k: int| 0 <= k < i ==> (#[trigger] self@.arts[k]).postid != postid as int,
            decreases self.articles.len() - i,
        {
            if self.articles[i].postid == postid {
                proof {
                    assert(0 <= i < self@.arts.len() && self@.arts[i as int].postid == postid
                        as int && self@.arts[i as int].timestamp == self.articles@[i as int].timestamp
                        as int);
                }
                return Some(self.articles[i].timestamp);
            }
            i += 1;
        }
        None
    }

    /// Build a store from raw rows and category names, accepting exactly the
    /// well-formed ones.
    pub fn from_rows(articles: Vec<BlogsInfoDO>, categories: Vec<String>) -> (r: Result<
        Store,
        crate::StoreError,
    >)
        ensures
            match r {
                Ok(st) => {
                    &&& st@.arts == articles@.map_values(|b: BlogsInfoDO| b@)
                    &&& st@.cats == categories@.map_values(|c: String| c@)
                    &&& st@.wf()
                },
                Err(e) => e == crate::StoreError::Corrupt && !(StoreView {
                    arts: articles@.map_values(|b: BlogsInfoDO| b@),
                    cats: categories@.map_values(|c: String| c@),
                }).wf(),
            },
    {
        let ghost arts = articles@.map_values(|b: BlogsInfoDO| b@);
        let ghost cats = categories@.map_values(|c: String| c@);
        let mut i: usize = 0;
        while i < articles.len()
            invariant
                arts == articles@.map_values(|b: BlogsInfoDO| b@),
                i <= articles@.len(),
                forall|x: int, y: int|
                    0 <= x < y < arts.len() && x < i && !arts[x].deleted && !arts[y].deleted
                        ==> arts[x].path != arts[y].path && arts[x].postid != arts[y].postid,
            decreases articles@.len() - i,
        {
            let mut j: usize = i + 1;
            while j < articles.len()
                invariant
                    arts == articles@.map_values(|b: BlogsInfoDO| b@),
                    i < j || i + 1 == j,
                    i < articles@.len(),
                    i + 1 <= j <= articles@.len(),
                    forall|y: int|
                        i < y < j && !arts[i as int].deleted && !arts[y].deleted ==> arts[i
                            as int].path != arts[y].path && arts[i as int].postid
                            != arts[y].postid,
                decreases articles@.len() - j,
            {
                if !articles[i].deleted && !articles[j].deleted && (articles[i].blog_path
                    == articles[j].blog_path || articles[i].postid == articles[j].postid) {
                    proof {
                        let sv = StoreView {
                            arts: articles@.map_values(|b: BlogsInfoDO| b@),
                            cats: categories@.map_values(|c: String| c@),
                        };
                        assert(sv.arts[i as int] == articles@[i as int]@);
                        assert(sv.arts[j as int] == articles@[j as int]@);
                        assert(!sv.wf());
                    }
                    return Err(crate::StoreError::Corrupt);
                }
                j += 1;
            }
            i += 1;
        }
        let mut a: usize = 0;
        while a < categories.len()
            invariant
                cats == categories@.map_values(|c: String| c@),
                a <= categories@.len(),
                forall|x: int, y: int|
                    0 <= x < y < cats.len() && x < a ==> cats[x] != cats[y],
            decreases categories@.len() - a,
        {
            let mut b: usize = a + 1;
            while b < categories.len()
                invariant
                    cats == categories@.map_values(|c: String| c@),
                    a < categories@.len(),
                    a + 1 <= b <= categories@.len(),
                    forall|y: int| a < y < b ==> cats[a as int] != cats[y],
                decreases categories@.len() - b,
            {
                if categories[a] == categories[b] {
                    proof {
                        let sv = StoreView {
                            arts: articles@.map_values(|x: BlogsInfoDO| x@),
                            cats: categories@.map_values(|c: String| c@),
                        };
                        assert(sv.cats[a as int] == categories@[a as int]@);
                        assert(sv.cats[b as int] == categories@[b as int]@);
                        assert(!sv.wf());
                    }
                    return Err(crate::StoreError::Corrupt);
                }
                b += 1;
            }
            a += 1;
        }
        Ok(Store { articles, categories })
    }

    /// All known category names, in registration order.
    pub fn get_local_categories(&self) -> (r: Vec<String>)
        ensures
            r@.map_values(|c: String| c@) =~= self@.cats,
    {
        let mut out: Vec<String> = Vec::new();
        let mut i: usize = 0;
        while i < self.categories.len()
            invariant
                i <= self.categories.len(),
                out@.len() == i,
                forall|k: int| 0 <= k < i ==> out@[k]@ == self@.cats[k],
            decreases self.categories.len() - i,
        {
            out.push(self.categories[i].clone());
            i += 1;
        }
        assert(out@.map_values(|c: String| c@) =~= self@.cats);
        out
    }
}

} // verus!
