//! The sync run's configuration: the master record's post identifier and
//! the two store handles — the authoritative local store and the read-only
//! remote mirror decoded from the master record. The run's query surface
//! lives here, each method verified against the reconciliation engine's
//! specifications.

use crate::apply;
use crate::master::master_category_name;
use crate::master::master_title;
use crate::numfmt::dec_str;
use crate::persist;
use crate::reconcile;
use crate::reconcile::{
    spec_local_changed, spec_local_deleted, spec_local_new, spec_remote_changed,
    spec_remote_deleted, spec_remote_new,
};
use crate::store::{first_match, rec_with_ts, BlogsInfoDO, RecView, Store, StoreView};
use crate::StoreError;
use vstd::prelude::*;

verus! {

/// The rows stand in strictly ascending identifier order.
pub open spec fn sorted_strict_by_postid(s: Seq<RecView>) -> bool {
    forall|k1: int, k2: int| 0 <= k1 < k2 < s.len() ==> s[k1].postid < s[k2].postid
}

/// Inserting a record at its ascending position keeps the placed rows'
/// contents (as a multiset) and strict order.
#[verifier::spinoff_prover]
proof fn lemma_sorted_insert(out0: Seq<BlogsInfoDO>, x: BlogsInfoDO, pos: int)
    requires
        0 <= pos <= out0.len(),
        forall|q: int| 0 <= q < pos ==> (#[trigger] out0[q])@.postid < x@.postid,
        forall|q: int| pos <= q < out0.len() ==> (#[trigger] out0[q])@.postid > x@.postid,
        sorted_strict_by_postid(out0.map_values(|b: BlogsInfoDO| b@)),
    ensures
        out0.insert(pos, x).len() == out0.len() + 1,
        out0.insert(pos, x).map_values(|b: BlogsInfoDO| b@).to_multiset() =~= out0.map_values(
            |b: BlogsInfoDO| b@,
        ).to_multiset().insert(x@),
        sorted_strict_by_postid(out0.insert(pos, x).map_values(|b: BlogsInfoDO| b@)),
{
    broadcast use vstd::seq_lib::group_to_multiset_ensures;
    broadcast use vstd::multiset::group_multiset_axioms;

    out0.insert_ensures(pos, x);
    let o = out0.insert(pos, x);
    let f = |b: BlogsInfoDO| b@;
    let left = out0.subrange(0, pos).map_values(f);
    let right = out0.subrange(pos, out0.len() as int).map_values(f);
    assert(o.map_values(f) =~= left.push(x@) + right);
    assert(out0.map_values(f) =~= left + right);
    vstd::seq_lib::lemma_multiset_commutative(left.push(x@), right);
    vstd::seq_lib::lemma_multiset_commutative(left, right);
    assert(left.push(x@).to_multiset() =~= left.to_multiset().insert(x@));
    assert(o.map_values(f).to_multiset() =~= out0.map_values(f).to_multiset().insert(x@));
    assert forall|k1: int, k2: int|
        0 <= k1 < k2 < o.len() implies o.map_values(f)[k1].postid < o.map_values(
        f,
    )[k2].postid by {
        assert(o.map_values(f)[k1] == o[k1]@ && o.map_values(f)[k2] == o[k2]@);
        if k2 < pos {
            assert(o[k1] == out0[k1] && o[k2] == out0[k2]);
            assert(out0.map_values(f)[k1].postid < out0.map_values(f)[k2].postid);
        } else if k2 == pos {
            assert(o[k1] == out0[k1] && o[k2] == x);
            assert(out0[k1]@.postid < x@.postid);
        } else if k1 < pos {
            assert(o[k1] == out0[k1] && o[k2] == out0[k2 - 1]);
            assert(out0[k1]@.postid < x@.postid);
            assert(out0[k2 - 1]@.postid > x@.postid);
        } else if k1 == pos {
            assert(o[k1] == x && o[k2] == out0[k2 - 1]);
            assert(out0[k2 - 1]@.postid > x@.postid);
        } else {
            assert(o[k1] == out0[k1 - 1] && o[k2] == out0[k2 - 1]);
            assert(out0.map_values(f)[k1 - 1].postid < out0.map_values(f)[k2 - 1].postid);
        }
    }
}

/// Sort records ascending by remote identifier (insertion sort). The
/// identifiers must be pairwise distinct, so the order is strict and the
/// result is the unique ascending arrangement of the input's records.
#[verifier::rlimit(100)]
#[verifier::spinoff_prover]
fn sort_records_by_postid(v: Vec<BlogsInfoDO>) -> (r: Vec<BlogsInfoDO>)
    requires
        forall|i: int, j: int|
            0 <= i < j < v@.len() ==> (#[trigger] v@[i])@.postid != (#[trigger] v@[j])@.postid,
    ensures
        r@.len() == v@.len(),
        r@.map_values(|b: BlogsInfoDO| b@).to_multiset() =~= v@.map_values(
            |b: BlogsInfoDO| b@,
        ).to_multiset(),
        sorted_strict_by_postid(r@.map_values(|b: BlogsInfoDO| b@)),
{
    broadcast use vstd::seq_lib::group_to_multiset_ensures;

    let ghost f = |b: BlogsInfoDO| b@;
    let ghost mv = v@.map_values(f);
    let mut out: Vec<BlogsInfoDO> = Vec::new();
    let mut i: usize = 0;
    proof {
        assert(out@.map_values(f).to_multiset() =~= mv.take(0).to_multiset()) by {
            assert(out@.map_values(f) =~= mv.take(0));
        }
    }
    while i < v.len()
        invariant
            i <= v@.len(),
            out@.len() == i,
            f == (|b: BlogsInfoDO| b@),
            mv == v@.map_values(f),
            forall|i1: int, j1: int|
                0 <= i1 < j1 < v@.len() ==> (#[trigger] v@[i1])@.postid != (
                #[trigger] v@[j1])@.postid,
            out@.map_values(f).to_multiset() =~= mv.take(i as int).to_multiset(),
            sorted_strict_by_postid(out@.map_values(f)),
        decreases v@.len() - i,
    {
        broadcast use vstd::seq_lib::group_to_multiset_ensures;

        let x = v[i].duplicate();
        proof {
            // Every placed identifier comes from an earlier input position,
            // so it differs from the incoming one.
            assert forall|k: int|
                0 <= k < out@.len() implies (#[trigger] out@[k])@.postid != x@.postid by {
                let y = out@.map_values(f)[k];
                assert(out@.map_values(f).contains(y));
                assert(out@.map_values(f).to_multiset().count(y) > 0);
                assert(mv.take(i as int).contains(y));
                let j = choose|j: int| 0 <= j < i && mv.take(i as int)[j] == y;
                assert(v@[j]@ == y);
                assert(v@[j]@.postid != v@[i as int]@.postid);
            }
        }
        let mut pos: usize = 0;
        while pos < out.len() && out[pos].postid < x.postid
            invariant
                pos <= out@.len(),
                forall|q: int| 0 <= q < pos ==> (#[trigger] out@[q])@.postid < x@.postid,
                x@ == v@[i as int]@,
                i < v@.len(),
                f == (|b: BlogsInfoDO| b@),
                forall|k: int|
                    0 <= k < out@.len() ==> (#[trigger] out@[k])@.postid != x@.postid,
                sorted_strict_by_postid(out@.map_values(f)),
            decreases out@.len() - pos,
        {
            pos += 1;
        }
        proof {
            assert forall|q: int|
                pos <= q < out@.len() implies (#[trigger] out@[q])@.postid > x@.postid by {
                if q > pos {
                    assert(out@.map_values(f)[pos as int].postid < out@.map_values(
                        f,
                    )[q].postid);
                }
            }
        }
        let ghost out0 = out@;
        let ghost xrec = x;
        out.insert(pos, x);
        proof {
            lemma_sorted_insert(out0, xrec, pos as int);
            assert(out@ == out0.insert(pos as int, xrec));
            mv.lemma_take_succ_push(i as int);
            assert(mv.take(i + 1).to_multiset() =~= mv.take(i as int).to_multiset().insert(
                xrec@,
            )) by {
                assert(mv.take(i + 1) =~= mv.take(i as int).push(mv[i as int]));
                assert(mv[i as int] == xrec@);
            }
            assert(out@.map_values(f).to_multiset() =~= mv.take(i + 1).to_multiset());
        }
        i += 1;
    }
    proof {
        assert(mv.take(v@.len() as int) =~= mv);
    }
    out
}

/// The ghost image of a configuration.
pub ghost struct ConfigView {
    pub master_postid: int,
    pub local: StoreView,
    pub mirror: StoreView,
}

/// One run's handles: the master post identifier, the local store, and the
/// remote mirror.
pub struct Config {
    master_postid: i32,
    local: Store,
    mirror: Store,
}

impl View for Config {
    type V = ConfigView;

    closed spec fn view(&self) -> ConfigView {
        ConfigView {
            master_postid: self.master_postid as int,
            local: self.local@,
            mirror: self.mirror@,
        }
    }
}

impl Config {
    /// Both stores are well-formed.
    pub open spec fn inv(self) -> bool {
        self@.local.wf() && self@.mirror.wf()
    }

    /// Assemble a configuration from the master identifier and two stores.
    pub fn new(master_postid: i32, local: Store, mirror: Store) -> (r: Config)
        ensures
            r@.master_postid == master_postid as int,
            r@.local == local@,
            r@.mirror == mirror@,
    {
        Config { master_postid, local, mirror }
    }

    /// The master record's post identifier.
    pub fn master_postid(&self) -> (r: i32)
        ensures
            r as int == self@.master_postid,
    {
        self.master_postid
    }

    /// The local store, read-only.
    pub fn local(&self) -> (r: &Store)
        ensures
            r@ == self@.local,
    {
        &self.local
    }

    /// The remote mirror, read-only.
    pub fn mirror(&self) -> (r: &Store)
        ensures
            r@ == self@.mirror,
    {
        &self.mirror
    }

    /// Compare the master row's timestamp in both stores: `true` when the
    /// mirror is strictly newer, `false` when they agree. A local store
    /// ahead of the mirror is one error; a store holding no master row at
    /// all is the corruption error, and nothing else is.
    pub fn check_blogs_info_update(&self) -> (r: Result<bool, StoreError>)
        ensures
            (r matches Err(e) && e == StoreError::Corrupt) <==> (!self@.local.has_postid(
                self@.master_postid,
            ) || !self@.mirror.has_postid(self@.master_postid)),
            match r {
                Ok(b) => exists|lt: int, rt: int|
                    #![trigger first_match(self@.local, self@.master_postid, lt), first_match(self@.mirror, self@.master_postid, rt)]
                    first_match(self@.local, self@.master_postid, lt) && first_match(
                        self@.mirror,
                        self@.master_postid,
                        rt,
                    ) && lt <= rt && b == (rt > lt),
                Err(StoreError::LocalAhead) => exists|lt: int, rt: int|
                    #![trigger first_match(self@.local, self@.master_postid, lt), first_match(self@.mirror, self@.master_postid, rt)]
                    first_match(self@.local, self@.master_postid, lt) && first_match(
                        self@.mirror,
                        self@.master_postid,
                        rt,
                    ) && lt > rt,
                Err(StoreError::Corrupt) => true,
                _ => false,
            },
    {
        let local_ts = match self.local.lookup_any_postid(self.master_postid) {
            Some(ts) => ts,
            None => {
                return Err(StoreError::Corrupt);
            },
        };
        let remote_ts = match self.mirror.lookup_any_postid(self.master_postid) {
            Some(ts) => ts,
            None => {
                return Err(StoreError::Corrupt);
            },
        };
        proof {
            assert(first_match(self@.local, self@.master_postid, local_ts as int));
            assert(first_match(self@.mirror, self@.master_postid, remote_ts as int));
        }
        if local_ts > remote_ts {
            return Err(StoreError::LocalAhead);
        }
        Ok(remote_ts > local_ts)
    }

    /// Mirror rows naming posts the local store does not know, in
    /// ascending identifier order, duplicate-free.
    pub fn get_remote_new_blogs_info(&self) -> (r: Vec<BlogsInfoDO>)
        requires
            self.inv(),
        ensures
            r@.map_values(|b: BlogsInfoDO| b@).to_multiset() =~= spec_remote_new(
                self@.local,
                self@.mirror,
            ).to_multiset(),
            sorted_strict_by_postid(r@.map_values(|b: BlogsInfoDO| b@)),
    {
        let unsorted = reconcile::get_remote_new_blogs_info(&self.local, &self.mirror);
        proof {
            apply::lemma_filter_live_distinct(
                self@.mirror.arts,
                |rv: RecView| reconcile::is_new_remote(self@.local, rv),
            );
            assert forall|i: int, j: int|
                0 <= i < j < unsorted@.len() implies (#[trigger] unsorted@[i])@.postid != (
            #[trigger] unsorted@[j])@.postid by {
                let sp = spec_remote_new(self@.local, self@.mirror);
                assert(unsorted@.map_values(|b: BlogsInfoDO| b@)[i] == sp[i]);
                assert(unsorted@.map_values(|b: BlogsInfoDO| b@)[j] == sp[j]);
            }
        }
        let r = sort_records_by_postid(unsorted);
        proof {
            assert(r@.map_values(|b: BlogsInfoDO| b@).to_multiset() =~= spec_remote_new(
                self@.local,
                self@.mirror,
            ).to_multiset());
        }
        r
    }

    /// Mirror rows both stores know, where the mirror is strictly newer.
    pub fn get_remote_changed_blogs_info(&self) -> (r: Vec<BlogsInfoDO>)
        requires
            self.inv(),
        ensures
            r@.map_values(|b: BlogsInfoDO| b@) =~= spec_remote_changed(
                self@.local,
                self@.mirror,
            ),
    {
        reconcile::get_remote_changed_blogs_info(&self.local, &self.mirror)
    }

    /// Mirror tombstones whose posts the local store still holds as live:
    /// one record per retired post (its first tombstone), every such post
    /// covered, in ascending identifier order.
    pub fn get_remote_deleted_blogs_info(&self) -> (r: Vec<BlogsInfoDO>)
        ensures
            forall|k: int|
                0 <= k < r@.len() ==> reconcile::first_deleted_remote(
                    self@.local,
                    self@.mirror,
                    (#[trigger] r@[k])@,
                ),
            sorted_strict_by_postid(r@.map_values(|b: BlogsInfoDO| b@)),
            forall|i: int|
                0 <= i < self@.mirror.arts.len() && reconcile::is_deleted_remote(
                    self@.local,
                    #[trigger] self@.mirror.arts[i],
                ) ==> exists|k: int|
                    0 <= k < r@.len() && (#[trigger] r@[k])@.postid
                        == self@.mirror.arts[i].postid,
    {
        broadcast use vstd::seq_lib::group_to_multiset_ensures;

        let unsorted = reconcile::get_remote_deleted_blogs_info(&self.local, &self.mirror);
        let r = sort_records_by_postid(unsorted);
        proof {
            let f = |b: BlogsInfoDO| b@;
            assert forall|k: int|
                0 <= k < r@.len() implies reconcile::first_deleted_remote(
                self@.local,
                self@.mirror,
                (#[trigger] r@[k])@,
            ) by {
                let y = r@.map_values(f)[k];
                assert(r@.map_values(f).contains(y));
                assert(r@.map_values(f).to_multiset().count(y) > 0);
                assert(unsorted@.map_values(f).contains(y));
                let j = choose|j: int|
                    0 <= j < unsorted@.len() && unsorted@.map_values(f)[j] == y;
                assert(reconcile::first_deleted_remote(
                    self@.local,
                    self@.mirror,
                    unsorted@[j]@,
                ));
            }
            assert forall|i: int|
                0 <= i < self@.mirror.arts.len() && reconcile::is_deleted_remote(
                    self@.local,
                    #[trigger] self@.mirror.arts[i],
                ) implies exists|k: int|
                0 <= k < r@.len() && (#[trigger] r@[k])@.postid
                    == self@.mirror.arts[i].postid by {
                let k0 = choose|k0: int|
                    0 <= k0 < unsorted@.len() && (#[trigger] unsorted@[k0])@.postid
                        == self@.mirror.arts[i].postid;
                let y = unsorted@.map_values(f)[k0];
                assert(unsorted@.map_values(f).contains(y));
                assert(unsorted@.map_values(f).to_multiset().count(y) > 0);
                assert(r@.map_values(f).contains(y));
                let k = choose|k: int| 0 <= k < r@.len() && r@.map_values(f)[k] == y;
                assert(r@[k]@.postid == self@.mirror.arts[i].postid);
            }
        }
        r
    }

    /// Apply the whole remote-origin pass to the local store.
    pub fn apply_remote_origin(&mut self)
        requires
            old(self).inv(),
            old(self)@.mirror.clean(),
            apply::path_compatible(old(self)@.local, old(self)@.mirror),
        ensures
            final(self).inv(),
            final(self)@.master_postid == old(self)@.master_postid,
            final(self)@.mirror == old(self)@.mirror,
            final(self)@.local.cats == old(self)@.local.cats,
            reconcile::remote_pass_settled(final(self)@.local, final(self)@.mirror),
            apply::remote_rows_characterized(
                old(self)@.local,
                old(self)@.mirror,
                final(self)@.local,
            ),
    {
        apply::apply_remote_origin(&mut self.local, &self.mirror);
    }

    /// Classify the live file listing against the local store.
    pub fn local_origin_actions(&self, listing: &Vec<reconcile::FileEntry>) -> (r:
        reconcile::LocalActions)
        requires
            self.inv(),
        ensures
            r.new_blogs@.map_values(|e: reconcile::FileEntry| e@) =~= spec_local_new(
                self@.local,
                listing.deep_view(),
            ),
            r.changed_blogs@.map_values(
                |c: reconcile::ChangedBlog|
                    reconcile::FileEntryView { path: c.path@, timestamp: c.timestamp as int },
            ) =~= spec_local_changed(self@.local, listing.deep_view()),
            forall|k: int|
                0 <= k < r.changed_blogs@.len() ==> reconcile::carries_row(
                    self@.local,
                    #[trigger] r.changed_blogs@[k]@,
                ),
            r.deleted_blogs@.map_values(|b: BlogsInfoDO| b@) =~= spec_local_deleted(
                self@.local,
                listing.deep_view(),
            ),
    {
        reconcile::local_origin_actions(&self.local, listing)
    }

    /// Apply the whole local-origin pass to the local store, under the
    /// freshly minted identifiers for the new articles.
    pub fn apply_local_origin(
        &mut self,
        listing: &Vec<reconcile::FileEntry>,
        new_postids: &Vec<i32>,
    )
        requires
            old(self).inv(),
            forall|i: int, j: int|
                0 <= i < j < listing@.len() ==> listing@[i]@.path != listing@[j]@.path,
            new_postids@.len() == spec_local_new(old(self)@.local, listing.deep_view()).len(),
            forall|k: int|
                0 <= k < new_postids@.len() ==> !old(self)@.local.has_existing_postid(
                    #[trigger] new_postids@[k] as int,
                ),
            forall|i: int, j: int|
                0 <= i < j < new_postids@.len() ==> new_postids@[i] != new_postids@[j],
        ensures
            final(self).inv(),
            final(self)@.master_postid == old(self)@.master_postid,
            final(self)@.mirror == old(self)@.mirror,
            final(self)@.local.cats == old(self)@.local.cats,
            reconcile::local_pass_settled(final(self)@.local, listing.deep_view()),
            apply::local_rows_characterized(
                old(self)@.local,
                listing.deep_view(),
                new_postids@,
                final(self)@.local,
            ),
    {
        apply::apply_local_origin(&mut self.local, listing, new_postids);
    }

    /// The paths of the live local rows — complete, duplicate-free, in
    /// ascending identifier order: the paths of some ascending arrangement
    /// of exactly the live rows.
    pub fn get_local_existed_blogs_path(&self) -> (r: Vec<String>)
        requires
            self@.local.wf(),
        ensures
            exists|s: Seq<RecView>|
                #![trigger s.to_multiset()]
                s.to_multiset() == self@.local.arts.filter(
                    |rv: RecView| !rv.deleted,
                ).to_multiset() && sorted_strict_by_postid(s) && r@.map_values(|p: String| p@)
                    == s.map_values(|rv: RecView| rv.path),
    {
        let recs = self.local.existing_records();
        proof {
            apply::lemma_filter_live_distinct(self@.local.arts, |rv: RecView| !rv.deleted);
            assert forall|i: int, j: int|
                0 <= i < j < recs@.len() implies (#[trigger] recs@[i])@.postid != (
            #[trigger] recs@[j])@.postid by {
                let sp = self@.local.arts.filter(|rv: RecView| !rv.deleted);
                assert(recs@.map_values(|b: BlogsInfoDO| b@)[i] == sp[i]);
                assert(recs@.map_values(|b: BlogsInfoDO| b@)[j] == sp[j]);
            }
        }
        let sorted = sort_records_by_postid(recs);
        let ghost witness = sorted@.map_values(|b: BlogsInfoDO| b@);
        let mut out: Vec<String> = Vec::new();
        let mut i: usize = 0;
        while i < sorted.len()
            invariant
                i <= sorted@.len(),
                witness == sorted@.map_values(|b: BlogsInfoDO| b@),
                out@.len() == i,
                forall|k: int| 0 <= k < i ==> (#[trigger] out@[k])@ == witness[k].path,
            decreases sorted@.len() - i,
        {
            out.push(sorted[i].blog_path.clone());
            i += 1;
        }
        proof {
            assert(witness.to_multiset() == self@.local.arts.filter(
                |rv: RecView| !rv.deleted,
            ).to_multiset());
            assert(out@.map_values(|p: String| p@) =~= witness.map_values(
                |rv: RecView| rv.path,
            ));
        }
        out
    }

    /// The live local rows as path, timestamp and identifier triples —
    /// complete, duplicate-free, in ascending identifier order.
    pub fn get_local_existed_blogs_info(&self) -> (r: Vec<(String, (i64, i32))>)
        requires
            self@.local.wf(),
        ensures
            exists|s: Seq<RecView>|
                #![trigger s.to_multiset()]
                s.to_multiset() == self@.local.arts.filter(
                    |rv: RecView| !rv.deleted,
                ).to_multiset() && sorted_strict_by_postid(s) && r@.map_values(
                    |t: (String, (i64, i32))| ((t.0)@, (t.1.0 as int, t.1.1 as int)),
                ) == s.map_values(|rv: RecView| (rv.path, (rv.timestamp, rv.postid))),
            forall|k1: int, k2: int|
                0 <= k1 < k2 < r@.len() ==> (#[trigger] r@[k1]).1.1 < (#[trigger] r@[k2]).1.1,
    {
        let recs = self.local.existing_records();
        proof {
            apply::lemma_filter_live_distinct(self@.local.arts, |rv: RecView| !rv.deleted);
            assert forall|i: int, j: int|
                0 <= i < j < recs@.len() implies (#[trigger] recs@[i])@.postid != (
            #[trigger] recs@[j])@.postid by {
                let sp = self@.local.arts.filter(|rv: RecView| !rv.deleted);
                assert(recs@.map_values(|b: BlogsInfoDO| b@)[i] == sp[i]);
                assert(recs@.map_values(|b: BlogsInfoDO| b@)[j] == sp[j]);
            }
        }
        let sorted = sort_records_by_postid(recs);
        let ghost witness = sorted@.map_values(|b: BlogsInfoDO| b@);
        let mut out: Vec<(String, (i64, i32))> = Vec::new();
        let mut i: usize = 0;
        while i < sorted.len()
            invariant
                i <= sorted@.len(),
                witness == sorted@.map_values(|b: BlogsInfoDO| b@),
                sorted_strict_by_postid(witness),
                out@.len() == i,
                forall|k: int|
                    0 <= k < i ==> ((#[trigger] out@[k]).0@ == witness[k].path && out@[k].1.0
                        as int == witness[k].timestamp && out@[k].1.1 as int
                        == witness[k].postid),
            decreases sorted@.len() - i,
        {
            out.push((sorted[i].blog_path.clone(), (sorted[i].timestamp, sorted[i].postid)));
            i += 1;
        }
        proof {
            assert(witness.to_multiset() == self@.local.arts.filter(
                |rv: RecView| !rv.deleted,
            ).to_multiset());
            assert(out@.map_values(
                |t: (String, (i64, i32))| ((t.0)@, (t.1.0 as int, t.1.1 as int)),
            ) =~= witness.map_values(|rv: RecView| (rv.path, (rv.timestamp, rv.postid))));
            assert forall|k1: int, k2: int|
                0 <= k1 < k2 < out@.len() implies (#[trigger] out@[k1]).1.1 < (
            #[trigger] out@[k2]).1.1 by {
                assert(witness[k1].postid < witness[k2].postid);
            }
        }
        out
    }

    /// All locally known category names.
    pub fn get_local_categories(&self) -> (r: Vec<String>)
        ensures
            r@.map_values(|c: String| c@) =~= self@.local.cats,
    {
        self.local.get_local_categories()
    }

    /// Whether a category name is already known locally.
    pub fn has_category(&self, name: &String) -> (r: bool)
        ensures
            r == self@.local.has_category(name@),
    {
        self.local.has_category(name)
    }

    /// Register a category name not yet known locally.
    pub fn new_category(&mut self, name: String)
        requires
            old(self)@.local.wf(),
            !old(self)@.local.has_category(name@),
        ensures
            final(self)@.local.cats =~= old(self)@.local.cats.push(name@),
            final(self)@.local.arts == old(self)@.local.arts,
            final(self)@.local.wf(),
            final(self)@.mirror == old(self)@.mirror,
            final(self)@.master_postid == old(self)@.master_postid,
    {
        self.local.new_category(name);
    }

    /// Record a freshly uploaded article in the local store.
    pub fn new_post(&mut self, blog_path: String, postid: i32, timestamp: i64)
        requires
            old(self)@.local.wf(),
            !old(self)@.local.has_existing_path(blog_path@),
            !old(self)@.local.has_existing_postid(postid as int),
        ensures
            final(self)@.local.arts =~= old(self)@.local.arts.push(
                RecView {
                    path: blog_path@,
                    postid: postid as int,
                    timestamp: timestamp as int,
                    deleted: false,
                },
            ),
            final(self)@.local.cats == old(self)@.local.cats,
            final(self)@.local.wf(),
            final(self)@.mirror == old(self)@.mirror,
            final(self)@.master_postid == old(self)@.master_postid,
    {
        self.local.new_post(blog_path, postid, timestamp);
    }

    /// Advance the stored timestamp of every local row with an identifier.
    pub fn edit_post(&mut self, postid: i32, timestamp: i64)
        requires
            old(self)@.local.wf(),
        ensures
            final(self)@.local.arts =~= old(self)@.local.arts.map_values(
                |r: RecView| rec_with_ts(r, postid as int, timestamp as int),
            ),
            final(self)@.local.cats == old(self)@.local.cats,
            final(self)@.local.wf(),
            final(self)@.mirror == old(self)@.mirror,
            final(self)@.master_postid == old(self)@.master_postid,
    {
        self.local.edit_post(postid, timestamp);
    }

    /// Tombstone every local row with an identifier.
    pub fn delete_post(&mut self, postid: i32)
        requires
            old(self)@.local.wf(),
        ensures
            final(self)@.local.arts =~= old(self)@.local.arts.map_values(
                |r: RecView| crate::store::rec_deleted_if(r, postid as int),
            ),
            final(self)@.local.cats == old(self)@.local.cats,
            final(self)@.local.wf(),
            final(self)@.mirror == old(self)@.mirror,
            final(self)@.master_postid == old(self)@.master_postid,
    {
        self.local.delete_post(postid);
    }

    /// Promote the remote mirror to be the new local store; the mirror slot
    /// is left empty. Used when local state is seeded from the master
    /// record during first-time initialization.
    pub fn overwrite_local_database(self) -> (r: Config)
        ensures
            r@.master_postid == self@.master_postid,
            r@.local == self@.mirror,
            r@.mirror.arts.len() == 0,
            r@.mirror.cats.len() == 0,
            r@.mirror.wf(),
    {
        let Config { master_postid, local: _, mirror } = self;
        Config { master_postid, local: mirror, mirror: Store::new() }
    }

    /// Stamp the master row with the publish time and serialize the local
    /// store for the master record's new body: the post title, the
    /// base64-encoded store, and the master category name.
    pub fn prepare_publish(&mut self, now: i64) -> (r: Result<(String, String, String), StoreError>)
        requires
            old(self)@.local.wf(),
        ensures
            final(self)@.local.arts =~= old(self)@.local.arts.map_values(
                |rv: RecView| rec_with_ts(rv, old(self)@.master_postid, now as int),
            ),
            final(self)@.local.cats == old(self)@.local.cats,
            final(self)@.local.wf(),
            final(self)@.mirror == old(self)@.mirror,
            final(self)@.master_postid == old(self)@.master_postid,
            r matches Ok(p) ==> {
                &&& p.0@ == "[CNBLOG]BLOGS_INFO_CFG"@
                &&& crate::dbfile::db_image(crate::codec::b64_bytes_of(p.1@)) == Some(
                    (persist::rows_of(final(self)@.local), final(self)@.local.cats),
                )
                &&& p.1@ == crate::codec::b64_of(crate::codec::b64_bytes_of(p.1@))
                &&& p.2@ == dec_str(old(self)@.master_postid) + "[CNBLOG]"@
            },
            r matches Err(e) ==> e == StoreError::Storage,
    {
        self.local.edit_post(self.master_postid, now);
        let body = match persist::encode_store(&self.local) {
            Ok(t) => t,
            Err(e) => {
                return Err(e);
            },
        };
        let title = master_title();
        let category = master_category_name(self.master_postid);
        Ok((title, body, category))
    }
}

} // verus!
