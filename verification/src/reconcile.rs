//! The reconciliation engine: pure three-way diffs over the local store, the
//! remote mirror and the live file listing. The remote-origin pass compares
//! the two stores by remote identifier; the local-origin pass compares the
//! local store with the files on disk by path. All comparisons use a strict
//! greater-than on timestamps, so equal timestamps mean "unchanged".

use crate::store::{BlogsInfoDO, RecView, Store, StoreView};
use vstd::prelude::*;

verus! {

/// A mirror row that names a post the local store does not know yet.
pub open spec fn is_new_remote(local: StoreView, r: RecView) -> bool {
    !r.deleted && !local.has_existing_postid(r.postid)
}

/// A mirror row both stores know, whose mirror timestamp is strictly newer.
pub open spec fn is_changed_remote(local: StoreView, r: RecView) -> bool {
    !r.deleted && exists|i: int|
        0 <= i < local.arts.len() && !local.arts[i].deleted && local.arts[i].postid == r.postid
            && r.timestamp > local.arts[i].timestamp
}

/// A mirror tombstone whose post the local store still holds as live.
pub open spec fn is_deleted_remote(local: StoreView, r: RecView) -> bool {
    r.deleted && local.has_existing_postid(r.postid)
}

/// The new-remote action set.
pub open spec fn spec_remote_new(local: StoreView, mirror: StoreView) -> Seq<RecView> {
    mirror.arts.filter(|r: RecView| is_new_remote(local, r))
}

/// The changed-remote action set.
pub open spec fn spec_remote_changed(local: StoreView, mirror: StoreView) -> Seq<RecView> {
    mirror.arts.filter(|r: RecView| is_changed_remote(local, r))
}

/// The deleted-remote action set.
pub open spec fn spec_remote_deleted(local: StoreView, mirror: StoreView) -> Seq<RecView> {
    mirror.arts.filter(|r: RecView| is_deleted_remote(local, r))
}

/// Mirror rows naming posts the local store does not know: these are
/// downloaded and written under the article root.
pub fn get_remote_new_blogs_info(local: &Store, mirror: &Store) -> (r: Vec<BlogsInfoDO>)
    ensures
        r@.map_values(|b: BlogsInfoDO| b@) =~= spec_remote_new(local@, mirror@),
{
    let ghost pred = |rv: RecView| is_new_remote(local@, rv);
    let mut out: Vec<BlogsInfoDO> = Vec::new();
    let mut i: usize = 0;
    while i < mirror.len()
        invariant
            i <= mirror@.arts.len(),
            out@.map_values(|b: BlogsInfoDO| b@) =~= mirror@.arts.take(i as int).filter(pred),
            pred == (|rv: RecView| is_new_remote(local@, rv)),
        decreases mirror@.arts.len() - i,
    {
        proof {
            mirror@.arts.lemma_take_succ_push(i as int);
            mirror@.arts.take(i as int).lemma_filter_push(mirror@.arts[i as int], pred);
        }
        let row = mirror.row(i);
        if !row.deleted && !local.has_existing_postid(row.postid) {
            out.push(row.duplicate());
        }
        assert(out@.map_values(|b: BlogsInfoDO| b@) =~= mirror@.arts.take(i + 1).filter(pred));
        i += 1;
    }
    proof {
        assert(mirror@.arts.take(mirror@.arts.len() as int) =~= mirror@.arts);
    }
    out
}

/// Mirror rows both stores know as live, where the mirror's timestamp is
/// strictly newer than the local store's: these overwrite the local file.
pub fn get_remote_changed_blogs_info(local: &Store, mirror: &Store) -> (r: Vec<BlogsInfoDO>)
    requires
        local@.wf(),
    ensures
        r@.map_values(|b: BlogsInfoDO| b@) =~= spec_remote_changed(local@, mirror@),
{
    let ghost pred = |rv: RecView| is_changed_remote(local@, rv);
    let mut out: Vec<BlogsInfoDO> = Vec::new();
    let mut i: usize = 0;
    while i < mirror.len()
        invariant
            local@.wf(),
            i <= mirror@.arts.len(),
            out@.map_values(|b: BlogsInfoDO| b@) =~= mirror@.arts.take(i as int).filter(pred),
            pred == (|rv: RecView| is_changed_remote(local@, rv)),
        decreases mirror@.arts.len() - i,
    {
        proof {
            mirror@.arts.lemma_take_succ_push(i as int);
            mirror@.arts.take(i as int).lemma_filter_push(mirror@.arts[i as int], pred);
        }
        let row = mirror.row(i);
        let mut keep = false;
        if !row.deleted {
            match local.lookup_existing_postid(row.postid) {
                Some(local_ts) => {
                    keep = row.timestamp > local_ts;
                    proof {
                        if keep {
                            assert(is_changed_remote(local@, row@));
                        } else {
                            // With a well-formed local store the live row for
                            // a given identifier is unique, so no other row
                            // can witness a strictly older timestamp.
                            assert forall|j: int|
                                0 <= j < local@.arts.len() && !local@.arts[j].deleted
                                    && local@.arts[j].postid
                                    == row@.postid implies !(row@.timestamp
                                > local@.arts[j].timestamp) by {
                                let w = choose|w: int|
                                    0 <= w < local@.arts.len() && !local@.arts[w].deleted
                                        && local@.arts[w].postid == row@.postid
                                        && local@.arts[w].timestamp == local_ts as int;
                                assert(w == j);
                            }
                            assert(!is_changed_remote(local@, row@));
                        }
                    }
                },
                None => {
                    proof {
                        assert(!is_changed_remote(local@, row@));
                    }
                },
            }
        }
        if keep {
            out.push(row.duplicate());
        }
        assert(out@.map_values(|b: BlogsInfoDO| b@) =~= mirror@.arts.take(i + 1).filter(pred));
        i += 1;
    }
    proof {
        assert(mirror@.arts.take(mirror@.arts.len() as int) =~= mirror@.arts);
    }
    out
}

/// The first mirror tombstone carrying its identifier, where that post is
/// still live locally: the record a deleted-remote action names.
pub open spec fn first_deleted_remote(local: StoreView, mirror: StoreView, r: RecView) -> bool {
    exists|i: int|
        0 <= i < mirror.arts.len() && #[trigger] mirror.arts[i] == r && is_deleted_remote(
            local,
            r,
        ) && (forall|j: int|
            0 <= j < i ==> !(mirror.arts[j].deleted && mirror.arts[j].postid == r.postid))
}

/// Whether some record in the vector carries a remote identifier.
fn vec_contains_postid(v: &Vec<BlogsInfoDO>, postid: i32) -> (r: bool)
    ensures
        r == exists|k: int| 0 <= k < v@.len() && (#[trigger] v@[k])@.postid == postid as int,
{
    let mut i: usize = 0;
    while i < v.len()
        invariant
            i <= v@.len(),
            forall|k: int| 0 <= k < i ==> (#[trigger] v@[k])@.postid != postid as int,
        decreases v@.len() - i,
    {
        if v[i].postid == postid {
            assert(v@[i as int]@.postid == postid as int);
            return true;
        }
        i += 1;
    }
    false
}

/// Mirror tombstones naming posts the local store still holds as live: the
/// posts are retired remotely and the files quarantined. Each retired post
/// appears once, under its first tombstone, and every tombstoned post that
/// is still live locally is covered.
pub fn get_remote_deleted_blogs_info(local: &Store, mirror: &Store) -> (r: Vec<BlogsInfoDO>)
    ensures
        forall|k: int|
            0 <= k < r@.len() ==> first_deleted_remote(local@, mirror@, (#[trigger] r@[k])@),
        forall|k1: int, k2: int|
            0 <= k1 < k2 < r@.len() ==> (#[trigger] r@[k1])@.postid != (#[trigger] r@[k2])@.postid,
        forall|i: int|
            0 <= i < mirror@.arts.len() && is_deleted_remote(local@, #[trigger] mirror@.arts[i])
                ==> exists|k: int| 0 <= k < r@.len() && (#[trigger] r@[k])@.postid
                == mirror@.arts[i].postid,
{
    let mut out: Vec<BlogsInfoDO> = Vec::new();
    let mut i: usize = 0;
    while i < mirror.len()
        invariant
            i <= mirror@.arts.len(),
            forall|k: int|
                0 <= k < out@.len() ==> first_deleted_remote(local@, mirror@, (
                #[trigger] out@[k])@),
            forall|k1: int, k2: int|
                0 <= k1 < k2 < out@.len() ==> (#[trigger] out@[k1])@.postid != (
                #[trigger] out@[k2])@.postid,
            forall|j: int|
                0 <= j < i && is_deleted_remote(local@, #[trigger] mirror@.arts[j]) ==> exists|
                    k: int,
                |
                    0 <= k < out@.len() && (#[trigger] out@[k])@.postid
                        == mirror@.arts[j].postid,
        decreases mirror@.arts.len() - i,
    {
        let ghost out0 = out@;
        let row = mirror.row(i);
        if row.deleted && local.has_existing_postid(row.postid) && !vec_contains_postid(
            &out,
            row.postid,
        ) {
            proof {
                // No earlier tombstone carries this identifier: an earlier
                // one would name the same still-live post, so it would
                // already stand in the result.
                assert forall|j: int|
                    0 <= j < i implies !(mirror@.arts[j].deleted && mirror@.arts[j].postid
                    == row@.postid) by {
                    if mirror@.arts[j].deleted && mirror@.arts[j].postid == row@.postid {
                        assert(is_deleted_remote(local@, mirror@.arts[j]));
                        let k0 = choose|k0: int|
                            0 <= k0 < out0.len() && out0[k0]@.postid == mirror@.arts[j].postid;
                    }
                }
            }
            out.push(row.duplicate());
            proof {
                let k = out@.len() - 1;
                assert(out@[k]@ == mirror@.arts[i as int]);
                assert(first_deleted_remote(local@, mirror@, out@[k]@));
            }
        }
        proof {
            assert(out0.len() <= out@.len());
            assert forall|k0: int| 0 <= k0 < out0.len() implies out@[k0] == out0[k0] by {}
            assert forall|j: int|
                0 <= j < i + 1 && is_deleted_remote(local@, #[trigger] mirror@.arts[j]) implies
            exists|k: int|
                0 <= k < out@.len() && (#[trigger] out@[k])@.postid
                    == mirror@.arts[j].postid by {
                if j < i {
                    let k0 = choose|k0: int|
                        0 <= k0 < out0.len() && out0[k0]@.postid == mirror@.arts[j].postid;
                    assert(out@[k0]@.postid == mirror@.arts[j].postid);
                } else {
                    assert(mirror@.arts[i as int].deleted && local@.has_existing_postid(
                        mirror@.arts[i as int].postid,
                    ));
                    if out0.len() < out@.len() {
                        assert(out@[out@.len() - 1]@.postid == mirror@.arts[j].postid);
                    } else {
                        let k0 = choose|k0: int|
                            0 <= k0 < out0.len() && out0[k0]@.postid == mirror@.arts[j].postid;
                        assert(out@[k0]@.postid == mirror@.arts[j].postid);
                    }
                }
            }
        }
        i += 1;
    }
    out
}

/// One candidate article file found under the root: its relative
/// slash-separated path and its modification time in whole seconds.
pub struct FileEntry {
    pub path: String,
    pub timestamp: i64,
}

/// The mathematical image of one file entry.
pub ghost struct FileEntryView {
    pub path: Seq<char>,
    pub timestamp: int,
}

impl View for FileEntry {
    type V = FileEntryView;

    open spec fn view(&self) -> FileEntryView {
        FileEntryView { path: self.path@, timestamp: self.timestamp as int }
    }
}

impl DeepView for FileEntry {
    type V = FileEntryView;

    open spec fn deep_view(&self) -> FileEntryView {
        self@
    }
}

impl FileEntry {
    /// An explicit copy whose image is known to equal the original's.
    pub fn duplicate(&self) -> (r: FileEntry)
        ensures
            r@ == self@,
    {
        FileEntry { path: self.path.clone(), timestamp: self.timestamp }
    }
}

/// A file entry becomes a changed-local action once it carries the remote
/// identifier of the row it updates.
pub struct ChangedBlog {
    pub path: String,
    pub timestamp: i64,
    pub postid: i32,
}

/// The mathematical image of one changed-local action.
pub ghost struct ChangedBlogView {
    pub path: Seq<char>,
    pub timestamp: int,
    pub postid: int,
}

impl View for ChangedBlog {
    type V = ChangedBlogView;

    open spec fn view(&self) -> ChangedBlogView {
        ChangedBlogView {
            path: self.path@,
            timestamp: self.timestamp as int,
            postid: self.postid as int,
        }
    }
}

/// A changed-local action names the live row that carries its path.
pub open spec fn carries_row(local: StoreView, c: ChangedBlogView) -> bool {
    exists|j: int|
        0 <= j < local.arts.len() && !local.arts[j].deleted && local.arts[j].path == c.path
            && local.arts[j].postid == c.postid
}

/// The paths of a listing, in listing order.
pub open spec fn listing_paths(listing: Seq<FileEntryView>) -> Seq<Seq<char>> {
    listing.map_values(|e: FileEntryView| e.path)
}

/// A file whose path no live local row carries.
pub open spec fn is_new_local(local: StoreView, e: FileEntryView) -> bool {
    !local.has_existing_path(e.path)
}

/// A file some live local row carries, whose modification time is strictly
/// newer than the row's timestamp.
pub open spec fn is_changed_local(local: StoreView, e: FileEntryView) -> bool {
    exists|i: int|
        0 <= i < local.arts.len() && !local.arts[i].deleted && local.arts[i].path == e.path
            && e.timestamp > local.arts[i].timestamp
}

/// A live local row whose path no file on disk carries any more.
pub open spec fn is_deleted_local(paths: Seq<Seq<char>>, r: RecView) -> bool {
    !r.deleted && !paths.contains(r.path)
}

/// The new-local action set.
pub open spec fn spec_local_new(local: StoreView, listing: Seq<FileEntryView>) -> Seq<
    FileEntryView,
> {
    listing.filter(|e: FileEntryView| is_new_local(local, e))
}

/// The changed-local action set, before identifiers are attached.
pub open spec fn spec_local_changed(local: StoreView, listing: Seq<FileEntryView>) -> Seq<
    FileEntryView,
> {
    listing.filter(|e: FileEntryView| is_changed_local(local, e))
}

/// The deleted-local action set.
pub open spec fn spec_local_deleted(local: StoreView, listing: Seq<FileEntryView>) -> Seq<
    RecView,
> {
    local.arts.filter(|r: RecView| is_deleted_local(listing_paths(listing), r))
}

/// The three local-origin action sets, computed from one walk of the listing
/// and one walk of the store.
pub struct LocalActions {
    pub new_blogs: Vec<FileEntry>,
    pub changed_blogs: Vec<ChangedBlog>,
    pub deleted_blogs: Vec<BlogsInfoDO>,
}

/// Classify the live file listing against the local store: files on no live
/// row are new, files strictly newer than their row are changed, and live
/// rows with no file left are deleted.
pub fn local_origin_actions(local: &Store, listing: &Vec<FileEntry>) -> (r: LocalActions)
    requires
        local@.wf(),
    ensures
        r.new_blogs@.map_values(|e: FileEntry| e@) =~= spec_local_new(local@, listing.deep_view()),
        r.changed_blogs@.map_values(|c: ChangedBlog| FileEntryView { path: c.path@, timestamp: c.timestamp as int })
            =~= spec_local_changed(local@, listing.deep_view()),
        forall|k: int|
            0 <= k < r.changed_blogs@.len() ==> carries_row(local@, #[trigger] r.changed_blogs@[k]@),
        r.deleted_blogs@.map_values(|b: BlogsInfoDO| b@) =~= spec_local_deleted(
            local@,
            listing.deep_view(),
        ),
{
    let ghost lv = listing.deep_view();
    let ghost new_pred = |e: FileEntryView| is_new_local(local@, e);
    let ghost chg_pred = |e: FileEntryView| is_changed_local(local@, e);
    let mut new_blogs: Vec<FileEntry> = Vec::new();
    let mut changed_blogs: Vec<ChangedBlog> = Vec::new();
    let mut i: usize = 0;
    proof {
        assert(lv =~= listing@.map_values(|e: FileEntry| e@));
    }
    while i < listing.len()
        invariant
            local@.wf(),
            i <= listing@.len(),
            lv == listing.deep_view(),
            lv =~= listing@.map_values(|e: FileEntry| e@),
            new_pred == (|e: FileEntryView| is_new_local(local@, e)),
            chg_pred == (|e: FileEntryView| is_changed_local(local@, e)),
            new_blogs@.map_values(|e: FileEntry| e@) =~= lv.take(i as int).filter(new_pred),
            changed_blogs@.map_values(
                |c: ChangedBlog| FileEntryView { path: c.path@, timestamp: c.timestamp as int },
            ) =~= lv.take(i as int).filter(chg_pred),
            forall|k: int|
                0 <= k < changed_blogs@.len() ==> carries_row(local@, #[trigger] changed_blogs@[k]@),
        decreases listing@.len() - i,
    {
        proof {
            lv.lemma_take_succ_push(i as int);
            lv.take(i as int).lemma_filter_push(lv[i as int], new_pred);
            lv.take(i as int).lemma_filter_push(lv[i as int], chg_pred);
        }
        let entry = &listing[i];
        match local.lookup_existing_path(&entry.path) {
            None => {
                new_blogs.push(entry.duplicate());
                proof {
                    assert(is_new_local(local@, lv[i as int]));
                    assert(!is_changed_local(local@, lv[i as int]));
                }
            },
            Some((stored_ts, postid)) => {
                proof {
                    assert(!is_new_local(local@, lv[i as int]));
                }
                if entry.timestamp > stored_ts {
                    changed_blogs.push(
                        ChangedBlog {
                            path: entry.path.clone(),
                            timestamp: entry.timestamp,
                            postid,
                        },
                    );
                    proof {
                        assert(is_changed_local(local@, lv[i as int]));
                        let k = changed_blogs@.len() - 1;
                        let w = choose|w: int|
                            0 <= w < local@.arts.len() && !local@.arts[w].deleted
                                && local@.arts[w].path == entry.path@ && local@.arts[w].timestamp
                                == stored_ts as int && local@.arts[w].postid == postid as int;
                        assert(changed_blogs@[k]@.path == entry.path@);
                        assert(local@.arts[w].path == changed_blogs@[k]@.path && local@.arts[w].postid
                            == changed_blogs@[k]@.postid);
                        assert(carries_row(local@, changed_blogs@[k]@));
                    }
                } else {
                    proof {
                        // The live row for a path is unique in a well-formed
                        // store, so the looked-up timestamp is the only
                        // witness a changed classification could use.
                        assert forall|j: int|
                            0 <= j < local@.arts.len() && !local@.arts[j].deleted
                                && local@.arts[j].path == lv[i as int].path implies !(lv[i
                            as int].timestamp > local@.arts[j].timestamp) by {
                            let w = choose|w: int|
                                0 <= w < local@.arts.len() && !local@.arts[w].deleted
                                    && local@.arts[w].path == entry.path@
                                    && local@.arts[w].timestamp == stored_ts as int
                                    && local@.arts[w].postid == postid as int;
                            assert(w == j);
                        }
                        assert(!is_changed_local(local@, lv[i as int]));
                    }
                }
            },
        }
        assert(new_blogs@.map_values(|e: FileEntry| e@) =~= lv.take(i + 1).filter(new_pred));
        assert(changed_blogs@.map_values(
            |c: ChangedBlog| FileEntryView { path: c.path@, timestamp: c.timestamp as int },
        ) =~= lv.take(i + 1).filter(chg_pred));
        i += 1;
    }
    proof {
        assert(lv.take(listing@.len() as int) =~= lv);
    }

    // Third pass: live rows whose paths were not seen on disk.
    let ghost del_pred = |r: RecView| is_deleted_local(listing_paths(lv), r);
    let mut deleted_blogs: Vec<BlogsInfoDO> = Vec::new();
    let mut j: usize = 0;
    while j < local.len()
        invariant
            j <= local@.arts.len(),
            lv == listing.deep_view(),
            lv =~= listing@.map_values(|e: FileEntry| e@),
            del_pred == (|r: RecView| is_deleted_local(listing_paths(lv), r)),
            deleted_blogs@.map_values(|b: BlogsInfoDO| b@) =~= local@.arts.take(j as int).filter(
                del_pred,
            ),
        decreases local@.arts.len() - j,
    {
        proof {
            local@.arts.lemma_take_succ_push(j as int);
            local@.arts.take(j as int).lemma_filter_push(local@.arts[j as int], del_pred);
        }
        let row = local.row(j);
        if !row.deleted && !listing_contains_path(listing, &row.blog_path) {
            deleted_blogs.push(row.duplicate());
            proof {
                assert(is_deleted_local(listing_paths(lv), local@.arts[j as int]));
            }
        } else {
            proof {
                assert(!is_deleted_local(listing_paths(lv), local@.arts[j as int]));
            }
        }
        assert(deleted_blogs@.map_values(|b: BlogsInfoDO| b@) =~= local@.arts.take(j + 1).filter(
            del_pred,
        ));
        j += 1;
    }
    proof {
        assert(local@.arts.take(local@.arts.len() as int) =~= local@.arts);
    }
    LocalActions { new_blogs, changed_blogs, deleted_blogs }
}

/// Whether some entry of the listing carries a path.
pub fn listing_contains_path(listing: &Vec<FileEntry>, path: &String) -> (r: bool)
    ensures
        r == listing_paths(listing.deep_view()).contains(path@),
{
    let ghost lv = listing.deep_view();
    proof {
        assert(lv =~= listing@.map_values(|e: FileEntry| e@));
    }
    let mut i: usize = 0;
    while i < listing.len()
        invariant
            i <= listing@.len(),
            lv == listing.deep_view(),
            lv =~= listing@.map_values(|e: FileEntry| e@),
            forall|k: int| 0 <= k < i ==> lv[k].path != path@,
        decreases listing@.len() - i,
    {
        if listing[i].path == *path {
            assert(listing_paths(lv)[i as int] == path@);
            return true;
        }
        i += 1;
    }
    proof {
        assert forall|k: int|
            0 <= k < listing_paths(lv).len() implies listing_paths(lv)[k] != path@ by {
            assert(lv[k].path != path@);
        }
    }
    false
}

// Everything below restates the passes as laws: once a pass has been applied
// and nothing else has moved, recomputing the same pass yields empty action
// sets.

/// The local store reflects every remote-origin action the mirror calls for:
/// every live mirror row has a live local row with the same identifier and a
/// timestamp at least as new, and no mirror tombstone's post is still live
/// locally.
pub open spec fn remote_pass_settled(local: StoreView, mirror: StoreView) -> bool {
    &&& forall|k: int|
        0 <= k < mirror.arts.len() && !(#[trigger] mirror.arts[k]).deleted ==> exists|i: int|
            0 <= i < local.arts.len() && !local.arts[i].deleted && local.arts[i].postid
                == mirror.arts[k].postid && local.arts[i].timestamp >= mirror.arts[k].timestamp
    &&& forall|k: int|
        0 <= k < mirror.arts.len() && (#[trigger] mirror.arts[k]).deleted
            ==> !local.has_existing_postid(mirror.arts[k].postid)
}

/// Some live row carries this file's path with a timestamp at least as new.
pub open spec fn covers_entry(local: StoreView, e: FileEntryView) -> bool {
    exists|i: int|
        0 <= i < local.arts.len() && !local.arts[i].deleted && local.arts[i].path == e.path
            && local.arts[i].timestamp >= e.timestamp
}

/// The local store reflects every local-origin action the listing calls for:
/// every file has a live row with its path and a timestamp at least as new,
/// and every live row's path is still on disk.
pub open spec fn local_pass_settled(local: StoreView, listing: Seq<FileEntryView>) -> bool {
    &&& forall|k: int| 0 <= k < listing.len() ==> covers_entry(local, #[trigger] listing[k])
    &&& forall|i: int|
        0 <= i < local.arts.len() && !(#[trigger] local.arts[i]).deleted ==> listing_paths(
            listing,
        ).contains(local.arts[i].path)
}

/// Idempotence of the remote-origin pass: against a settled local store the
/// mirror calls for nothing — all three remote-origin action sets are empty.
pub proof fn lemma_remote_pass_idempotent(local: StoreView, mirror: StoreView)
    requires
        local.wf(),
        remote_pass_settled(local, mirror),
    ensures
        spec_remote_new(local, mirror).len() == 0,
        spec_remote_changed(local, mirror).len() == 0,
        spec_remote_deleted(local, mirror).len() == 0,
{
    assert forall|k: int|
        0 <= k < mirror.arts.len() implies !(|r: RecView| is_new_remote(local, r))(
        mirror.arts[k],
    ) by {
        if !mirror.arts[k].deleted {
            let i = choose|i: int|
                0 <= i < local.arts.len() && !local.arts[i].deleted && local.arts[i].postid
                    == mirror.arts[k].postid && local.arts[i].timestamp
                    >= mirror.arts[k].timestamp;
            assert(local.has_existing_postid(mirror.arts[k].postid));
        }
    }
    mirror.arts.lemma_all_neg_filter_empty(|r: RecView| is_new_remote(local, r));

    assert forall|k: int|
        0 <= k < mirror.arts.len() implies !(|r: RecView| is_changed_remote(local, r))(
        mirror.arts[k],
    ) by {
        if !mirror.arts[k].deleted {
            let i = choose|i: int|
                0 <= i < local.arts.len() && !local.arts[i].deleted && local.arts[i].postid
                    == mirror.arts[k].postid && local.arts[i].timestamp
                    >= mirror.arts[k].timestamp;
            // The live row with this identifier is unique, so no other row
            // can witness a strictly older timestamp.
            assert forall|j: int|
                0 <= j < local.arts.len() && !local.arts[j].deleted && local.arts[j].postid
                    == mirror.arts[k].postid implies !(mirror.arts[k].timestamp
                > local.arts[j].timestamp) by {
                assert(i == j);
            }
        }
    }
    mirror.arts.lemma_all_neg_filter_empty(|r: RecView| is_changed_remote(local, r));

    assert forall|k: int|
        0 <= k < mirror.arts.len() implies !(|r: RecView| is_deleted_remote(local, r))(
        mirror.arts[k],
    ) by {}
    mirror.arts.lemma_all_neg_filter_empty(|r: RecView| is_deleted_remote(local, r));
}

/// Idempotence of the local-origin pass: against a settled local store the
/// listing calls for nothing — all three local-origin action sets are empty.
pub proof fn lemma_local_pass_idempotent(local: StoreView, listing: Seq<FileEntryView>)
    requires
        local.wf(),
        local_pass_settled(local, listing),
    ensures
        spec_local_new(local, listing).len() == 0,
        spec_local_changed(local, listing).len() == 0,
        spec_local_deleted(local, listing).len() == 0,
{
    assert forall|k: int|
        0 <= k < listing.len() implies !(|e: FileEntryView| is_new_local(local, e))(
        listing[k],
    ) by {
        let i = choose|i: int|
            0 <= i < local.arts.len() && !local.arts[i].deleted && local.arts[i].path
                == listing[k].path && local.arts[i].timestamp >= listing[k].timestamp;
        assert(local.has_existing_path(listing[k].path));
    }
    listing.lemma_all_neg_filter_empty(|e: FileEntryView| is_new_local(local, e));

    assert forall|k: int|
        0 <= k < listing.len() implies !(|e: FileEntryView| is_changed_local(local, e))(
        listing[k],
    ) by {
        let i = choose|i: int|
            0 <= i < local.arts.len() && !local.arts[i].deleted && local.arts[i].path
                == listing[k].path && local.arts[i].timestamp >= listing[k].timestamp;
        // The live row with this path is unique, so no other row can witness
        // a strictly older timestamp.
        assert forall|j: int|
            0 <= j < local.arts.len() && !local.arts[j].deleted && local.arts[j].path
                == listing[k].path implies !(listing[k].timestamp > local.arts[j].timestamp) by {
            assert(i == j);
        }
    }
    listing.lemma_all_neg_filter_empty(|e: FileEntryView| is_changed_local(local, e));

    assert forall|i: int|
        0 <= i < local.arts.len() implies !(|r: RecView| is_deleted_local(
        listing_paths(listing),
        r,
    ))(local.arts[i]) by {}
    local.arts.lemma_all_neg_filter_empty(
        |r: RecView| is_deleted_local(listing_paths(listing), r),
    );
}

/// Idempotence of the whole reconciliation: once the local store is
/// settled against both the remote mirror and the live file listing —
/// which applying one run's passes leaves it — a second run with no
/// intervening filesystem or remote change computes empty action sets in
/// every category: new-remote, changed-remote, deleted-remote, new-local,
/// changed-local, and the derived deleted-local set.
pub proof fn lemma_reconciliation_idempotent(
    local: StoreView,
    mirror: StoreView,
    listing: Seq<FileEntryView>,
)
    requires
        local.wf(),
        remote_pass_settled(local, mirror),
        local_pass_settled(local, listing),
    ensures
        spec_remote_new(local, mirror).len() == 0,
        spec_remote_changed(local, mirror).len() == 0,
        spec_remote_deleted(local, mirror).len() == 0,
        spec_local_new(local, listing).len() == 0,
        spec_local_changed(local, listing).len() == 0,
        spec_local_deleted(local, listing).len() == 0,
{
    lemma_remote_pass_idempotent(local, mirror);
    lemma_local_pass_idempotent(local, listing);
}

/// The timestamp tie-break: a file whose modification time equals its live
/// row's stored timestamp is never classified as changed, and one newer by
/// at least one second always is. Equality means "unchanged" by design, so
/// that a completed sync leaves nothing to do.
pub proof fn lemma_timestamp_tie_break(local: StoreView, e: FileEntryView, i: int)
    requires
        local.wf(),
        0 <= i < local.arts.len(),
        !local.arts[i].deleted,
        local.arts[i].path == e.path,
    ensures
        e.timestamp == local.arts[i].timestamp ==> !is_changed_local(local, e),
        e.timestamp >= local.arts[i].timestamp + 1 ==> is_changed_local(local, e),
{
    if e.timestamp == local.arts[i].timestamp {
        // The live row carrying a path is unique, so no other row can
        // witness a strictly older stored timestamp.
        assert forall|j: int|
            0 <= j < local.arts.len() && !local.arts[j].deleted && local.arts[j].path
                == e.path implies !(e.timestamp > local.arts[j].timestamp) by {
            assert(i == j);
        }
    }
}

} // verus!
