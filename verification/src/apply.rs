//! Applying the reconciliation's action sets to the local store. The
//! orchestration around each action (downloading a body, writing a file,
//! issuing a remote call) happens outside; these functions perform exactly
//! the store mutations the pass calls for, and prove that afterwards the
//! store is settled with respect to its counterpart, so a second run of the
//! same pass computes empty action sets.

use crate::reconcile::{
    first_deleted_remote, is_changed_remote, is_deleted_remote, is_new_remote,
    remote_pass_settled, spec_remote_changed, spec_remote_deleted, spec_remote_new,
};
use crate::reconcile::{
    get_remote_changed_blogs_info, get_remote_deleted_blogs_info, get_remote_new_blogs_info,
};
use crate::reconcile::{
    carries_row, is_changed_local, is_deleted_local, is_new_local, listing_paths,
    local_origin_actions, local_pass_settled, spec_local_changed, spec_local_deleted,
    spec_local_new, ChangedBlog, FileEntry, FileEntryView,
};
use crate::store::{BlogsInfoDO, RecView, Store, StoreView};
use vstd::prelude::*;

verus! {

/// The two stores agree on identifiers wherever their live paths coincide.
/// Both stores descend from a common history, so a path cannot stand for two
/// different posts.
pub open spec fn path_compatible(local: StoreView, mirror: StoreView) -> bool {
    forall|i: int, j: int|
        0 <= i < local.arts.len() && 0 <= j < mirror.arts.len() && !(
        #[trigger] local.arts[i]).deleted && !(#[trigger] mirror.arts[j]).deleted
            && local.arts[i].path == mirror.arts[j].path ==> local.arts[i].postid
            == mirror.arts[j].postid
}

/// Rows kept from a well-formed store by a tombstone-rejecting predicate
/// carry pairwise distinct paths and identifiers.
pub(crate) proof fn lemma_filter_live_distinct(s: Seq<RecView>, pred: spec_fn(RecView) -> bool)
    requires
        forall|i: int, j: int|
            0 <= i < j < s.len() && !s[i].deleted && !s[j].deleted ==> s[i].path != s[j].path
                && s[i].postid != s[j].postid,
        forall|r: RecView| #[trigger] pred(r) ==> !r.deleted,
    ensures
        forall|i: int, j: int|
            0 <= i < j < s.filter(pred).len() ==> (#[trigger] s.filter(pred)[i]).path != (
            #[trigger] s.filter(pred)[j]).path && s.filter(pred)[i].postid != s.filter(
                pred,
            )[j].postid,
    decreases s.len(),
{
    reveal(Seq::filter);
    broadcast use vstd::seq_lib::group_filter_ensures;

    if s.len() > 0 {
        let rest = s.drop_last();
        lemma_filter_live_distinct(rest, pred);
        let f = s.filter(pred);
        let fr = rest.filter(pred);
        if pred(s.last()) {
            assert(f == fr.push(s.last()));
            assert forall|i: int, j: int|
                0 <= i < j < f.len() implies (#[trigger] f[i]).path != (#[trigger] f[j]).path
                && f[i].postid != f[j].postid by {
                if j == f.len() - 1 {
                    assert(f[j] == s.last());
                    assert(f[i] == fr[i]);
                    assert(fr.contains(fr[i]));
                    rest.lemma_filter_contains_rev(pred, fr[i]);
                    let w = choose|w: int| 0 <= w < rest.len() && rest[w] == fr[i];
                    assert(s[w] == fr[i]);
                    assert(!s[w].deleted && !s.last().deleted);
                    assert(s[w].path != s[s.len() - 1].path && s[w].postid != s[s.len()
                        - 1].postid);
                } else {
                    assert(f[i] == fr[i] && f[j] == fr[j]);
                }
            }
        } else {
            assert(f == fr);
        }
    }
}

/// A new-remote identifier never equals a changed-remote identifier: the
/// one is unknown to the old store, the other stands on one of its live
/// rows.
proof fn lemma_ids_new_vs_changed(l0: StoreView, m: StoreView)
    ensures
        forall|q: int, kk: int|
            0 <= q < spec_remote_new(l0, m).len() && 0 <= kk < spec_remote_changed(l0, m).len()
                ==> (#[trigger] spec_remote_new(l0, m)[q]).postid != (
            #[trigger] spec_remote_changed(l0, m)[kk]).postid,
{
    broadcast use vstd::seq_lib::group_filter_ensures;

    let new_pred = |r: RecView| is_new_remote(l0, r);
    let chg_pred = |r: RecView| is_changed_remote(l0, r);
    assert forall|q: int, kk: int|
        0 <= q < spec_remote_new(l0, m).len() && 0 <= kk < spec_remote_changed(
            l0,
            m,
        ).len() implies (#[trigger] spec_remote_new(l0, m)[q]).postid != (
    #[trigger] spec_remote_changed(l0, m)[kk]).postid by {
        m.arts.lemma_filter_pred(new_pred, q);
        m.arts.lemma_filter_pred(chg_pred, kk);
        let c = spec_remote_changed(l0, m)[kk];
        if spec_remote_new(l0, m)[q].postid == c.postid {
            let w = choose|w: int|
                0 <= w < l0.arts.len() && !l0.arts[w].deleted && l0.arts[w].postid == c.postid
                    && c.timestamp > l0.arts[w].timestamp;
            assert(l0.has_existing_postid(spec_remote_new(l0, m)[q].postid));
        }
    }
}

/// A new-remote identifier never equals a deduplicated tombstone
/// identifier: the one is live in the mirror, the other tombstoned, and a
/// clean mirror keeps the two apart.
proof fn lemma_ids_new_vs_dvx(l0: StoreView, m: StoreView, dvx: Seq<RecView>)
    requires
        m.clean(),
        forall|kk: int| 0 <= kk < dvx.len() ==> first_deleted_remote(l0, m, #[trigger] dvx[kk]),
    ensures
        forall|q: int, kk: int|
            0 <= q < spec_remote_new(l0, m).len() && 0 <= kk < dvx.len() ==> (
            #[trigger] spec_remote_new(l0, m)[q]).postid != (#[trigger] dvx[kk]).postid,
{
    broadcast use vstd::seq_lib::group_filter_ensures;

    let new_pred = |r: RecView| is_new_remote(l0, r);
    assert forall|q: int, kk: int|
        0 <= q < spec_remote_new(l0, m).len() && 0 <= kk < dvx.len() implies (
    #[trigger] spec_remote_new(l0, m)[q]).postid != (#[trigger] dvx[kk]).postid by {
        m.arts.lemma_filter_pred(new_pred, q);
        m.arts.lemma_filter_contains_rev(new_pred, spec_remote_new(l0, m)[q]);
        let v = choose|v: int| 0 <= v < m.arts.len() && m.arts[v] == spec_remote_new(l0, m)[q];
        assert(first_deleted_remote(l0, m, dvx[kk]));
        let w = choose|w: int|
            0 <= w < m.arts.len() && #[trigger] m.arts[w] == dvx[kk] && is_deleted_remote(
                l0,
                dvx[kk],
            ) && (forall|j: int|
                0 <= j < w ==> !(m.arts[j].deleted && m.arts[j].postid == dvx[kk].postid));
        assert(!m.arts[v].deleted && m.arts[w].deleted);
    }
}

/// Some record in the sequence carries this identifier.
pub open spec fn ids_cover(v: Seq<RecView>, id: int) -> bool {
    exists|kk: int| 0 <= kk < v.len() && (#[trigger] v[kk]).postid == id
}

/// The deduplicated tombstone identifiers and the deleted-remote set's
/// identifiers coincide.
proof fn lemma_ids_dvx_dvs(l0: StoreView, m: StoreView, dvx: Seq<RecView>)
    requires
        forall|kk: int| 0 <= kk < dvx.len() ==> first_deleted_remote(l0, m, #[trigger] dvx[kk]),
        forall|w: int|
            0 <= w < m.arts.len() && is_deleted_remote(l0, #[trigger] m.arts[w]) ==> exists|
                kk: int,
            |
                0 <= kk < dvx.len() && (#[trigger] dvx[kk]).postid == m.arts[w].postid,
    ensures
        forall|kk: int|
            0 <= kk < dvx.len() ==> id_in_remote_deleted(l0, m, (#[trigger] dvx[kk]).postid),
        forall|k: int|
            0 <= k < spec_remote_deleted(l0, m).len() ==> ids_cover(
                dvx,
                (#[trigger] spec_remote_deleted(l0, m)[k]).postid,
            ),
{
    broadcast use vstd::seq_lib::group_filter_ensures;

    let del_pred = |r: RecView| is_deleted_remote(l0, r);
    let dvs = spec_remote_deleted(l0, m);
    assert forall|kk: int|
        0 <= kk < dvx.len() implies id_in_remote_deleted(l0, m, (#[trigger] dvx[kk]).postid) by {
        let w = choose|w: int|
            0 <= w < m.arts.len() && #[trigger] m.arts[w] == dvx[kk] && is_deleted_remote(
                l0,
                dvx[kk],
            ) && (forall|j: int|
                0 <= j < w ==> !(m.arts[j].deleted && m.arts[j].postid == dvx[kk].postid));
        m.arts.lemma_filter_contains(del_pred, w);
        let q = choose|q: int| 0 <= q < dvs.len() && dvs[q] == m.arts[w];
        assert(dvs[q].postid == dvx[kk].postid);
    }
    assert forall|k: int|
        0 <= k < dvs.len() implies ids_cover(dvx, (#[trigger] dvs[k]).postid) by {
        m.arts.lemma_filter_pred(del_pred, k);
        m.arts.lemma_filter_contains_rev(del_pred, dvs[k]);
        let w = choose|w: int| 0 <= w < m.arts.len() && m.arts[w] == dvs[k];
        assert(is_deleted_remote(l0, m.arts[w]));
        let kk = choose|kk: int|
            0 <= kk < dvx.len() && (#[trigger] dvx[kk]).postid == m.arts[w].postid;
        assert(dvx[kk].postid == dvs[k].postid);
    }
}

/// The final rows the remote-origin pass leaves, concluded from the exit
/// facts of its three loops: old rows keep their paths and identifiers,
/// timestamps and tombstones follow the action sets, and the new-remote
/// records are appended verbatim.
#[verifier::rlimit(100)]
#[verifier::spinoff_prover]
proof fn lemma_remote_apply_rows(
    l0: StoreView,
    m: StoreView,
    nv: Seq<RecView>,
    cv: Seq<RecView>,
    dvx: Seq<RecView>,
    arts1: Seq<RecView>,
    arts2: Seq<RecView>,
    fin: StoreView,
)
    requires
        l0.wf(),
        m.wf(),
        m.clean(),
        nv == spec_remote_new(l0, m),
        cv == spec_remote_changed(l0, m),
        arts1 == l0.arts + nv,
        forall|kk: int| 0 <= kk < dvx.len() ==> first_deleted_remote(l0, m, #[trigger] dvx[kk]),
        forall|w: int|
            0 <= w < m.arts.len() && is_deleted_remote(l0, #[trigger] m.arts[w]) ==> exists|
                kk: int,
            |
                0 <= kk < dvx.len() && (#[trigger] dvx[kk]).postid == m.arts[w].postid,
        arts2.len() == arts1.len(),
        forall|i: int|
            0 <= i < arts1.len() ==> (#[trigger] arts2[i]).path == arts1[i].path
                && arts2[i].postid == arts1[i].postid && arts2[i].deleted == arts1[i].deleted,
        forall|k: int|
            0 <= k < cv.len() ==> forall|i: int|
                0 <= i < arts1.len() && (#[trigger] arts2[i]).postid == (#[trigger] cv[k]).postid
                    ==> arts2[i].timestamp == cv[k].timestamp,
        forall|i: int|
            0 <= i < arts1.len() && (forall|k: int|
                0 <= k < cv.len() ==> arts1[i].postid != (#[trigger] cv[k]).postid) ==> (
            #[trigger] arts2[i]).timestamp == arts1[i].timestamp,
        fin.arts.len() == arts2.len(),
        forall|i: int|
            0 <= i < arts2.len() ==> (#[trigger] fin.arts[i]).path == arts2[i].path
                && fin.arts[i].postid == arts2[i].postid && fin.arts[i].timestamp
                == arts2[i].timestamp,
        forall|k: int|
            0 <= k < dvx.len() ==> !fin.has_existing_postid((#[trigger] dvx[k]).postid),
        forall|i: int|
            0 <= i < arts2.len() && (forall|k: int|
                0 <= k < dvx.len() ==> arts2[i].postid != (#[trigger] dvx[k]).postid) ==> (
            #[trigger] fin.arts[i]).deleted == arts2[i].deleted,
        forall|i: int|
            0 <= i < arts2.len() && arts2[i].deleted ==> (#[trigger] fin.arts[i]).deleted,
    ensures
        remote_rows_characterized(l0, m, fin),
{
    broadcast use vstd::seq_lib::group_filter_ensures;

    let new_pred = |r: RecView| is_new_remote(l0, r);
    let dvs = spec_remote_deleted(l0, m);
    lemma_ids_new_vs_changed(l0, m);
    lemma_ids_new_vs_dvx(l0, m, dvx);
    lemma_ids_dvx_dvs(l0, m, dvx);

    // The appended rows come through both later loops untouched.
    assert forall|q: int|
        0 <= q < nv.len() implies fin.arts[l0.arts.len() + q] == nv[q] by {
        let i = l0.arts.len() + q;
        assert(arts1[i] == nv[q]);
        m.arts.lemma_filter_pred(new_pred, q);
        assert forall|kk: int| 0 <= kk < cv.len() implies arts1[i].postid != (
        #[trigger] cv[kk]).postid by {
            assert(nv[q].postid != cv[kk].postid);
        }
        assert(arts2[i].timestamp == arts1[i].timestamp);
        assert forall|kk: int| 0 <= kk < dvx.len() implies arts2[i].postid != (
        #[trigger] dvx[kk]).postid by {
            assert(nv[q].postid != dvx[kk].postid);
        }
        assert(fin.arts[i].deleted == arts2[i].deleted);
        assert(fin.arts[i] =~= nv[q]);
    }

    // Timestamps: set by the changed-remote set, untouched otherwise.
    assert forall|i: int, k: int|
        #![trigger fin.arts[i], spec_remote_changed(l0, m)[k]]
        0 <= i < l0.arts.len() && 0 <= k < cv.len() && l0.arts[i].postid
            == cv[k].postid implies fin.arts[i].timestamp == cv[k].timestamp by {
        assert(arts1[i] == l0.arts[i]);
        assert(arts2[i].postid == cv[k].postid);
        assert(arts2[i].timestamp == cv[k].timestamp);
    }
    assert forall|i: int|
        0 <= i < l0.arts.len() && !id_in_remote_changed(l0, m, l0.arts[i].postid) implies (
    #[trigger] fin.arts[i]).timestamp == l0.arts[i].timestamp by {
        assert(arts1[i] == l0.arts[i]);
        assert forall|k: int| 0 <= k < cv.len() implies arts1[i].postid != (
        #[trigger] cv[k]).postid by {
            if arts1[i].postid == cv[k].postid {
                assert(id_in_remote_changed(l0, m, l0.arts[i].postid));
            }
        }
        assert(arts2[i].timestamp == arts1[i].timestamp);
    }

    // Tombstones: monotone, set by the deleted-remote identifiers,
    // untouched otherwise.
    assert forall|i: int|
        0 <= i < l0.arts.len() && l0.arts[i].deleted implies (#[trigger] fin.arts[i]).deleted by {
        assert(arts1[i] == l0.arts[i]);
        assert(arts2[i].deleted);
    }
    assert forall|i: int|
        0 <= i < l0.arts.len() && id_in_remote_deleted(l0, m, l0.arts[i].postid) implies (
    #[trigger] fin.arts[i]).deleted by {
        assert(arts1[i] == l0.arts[i]);
        let k = choose|k: int|
            0 <= k < dvs.len() && (#[trigger] dvs[k]).postid == l0.arts[i].postid;
        assert(ids_cover(dvx, dvs[k].postid));
        let kk = choose|kk: int|
            0 <= kk < dvx.len() && (#[trigger] dvx[kk]).postid == dvs[k].postid;
        assert(!fin.has_existing_postid(dvx[kk].postid));
        assert(fin.arts[i].postid == dvx[kk].postid);
        if !fin.arts[i].deleted {
            assert(fin.has_existing_postid(dvx[kk].postid));
        }
    }
    assert forall|i: int|
        0 <= i < l0.arts.len() && !l0.arts[i].deleted && !id_in_remote_deleted(
            l0,
            m,
            l0.arts[i].postid,
        ) implies !(#[trigger] fin.arts[i]).deleted by {
        assert(arts1[i] == l0.arts[i]);
        assert forall|kk: int| 0 <= kk < dvx.len() implies arts2[i].postid != (
        #[trigger] dvx[kk]).postid by {
            if arts2[i].postid == dvx[kk].postid {
                assert(id_in_remote_deleted(l0, m, l0.arts[i].postid));
            }
        }
        assert(fin.arts[i].deleted == arts2[i].deleted);
        assert(!arts2[i].deleted);
    }
}

/// An identifier stands in the changed-remote set.
pub open spec fn id_in_remote_changed(l0: StoreView, m: StoreView, id: int) -> bool {
    exists|k: int|
        0 <= k < spec_remote_changed(l0, m).len() && (#[trigger] spec_remote_changed(
            l0,
            m,
        )[k]).postid == id
}

/// An identifier stands in the deleted-remote set.
pub open spec fn id_in_remote_deleted(l0: StoreView, m: StoreView, id: int) -> bool {
    exists|k: int|
        0 <= k < spec_remote_deleted(l0, m).len() && (#[trigger] spec_remote_deleted(
            l0,
            m,
        )[k]).postid == id
}

/// How the remote-origin pass rewrites the rows: the conjunction the pass's
/// contract states of the final store.
pub open spec fn remote_rows_characterized(l0: StoreView, m: StoreView, fin: StoreView) -> bool {
    &&& fin.arts.len() == l0.arts.len() + spec_remote_new(l0, m).len()
    &&& forall|i: int|
        0 <= i < l0.arts.len() ==> (#[trigger] fin.arts[i]).path == l0.arts[i].path
            && fin.arts[i].postid == l0.arts[i].postid
    &&& forall|q: int|
        0 <= q < spec_remote_new(l0, m).len() ==> fin.arts[l0.arts.len() + q]
            == spec_remote_new(l0, m)[q]
    &&& forall|i: int, k: int|
        #![trigger fin.arts[i], spec_remote_changed(l0, m)[k]]
        0 <= i < l0.arts.len() && 0 <= k < spec_remote_changed(l0, m).len()
            && l0.arts[i].postid == spec_remote_changed(l0, m)[k].postid
            ==> fin.arts[i].timestamp == spec_remote_changed(l0, m)[k].timestamp
    &&& forall|i: int|
        0 <= i < l0.arts.len() && !id_in_remote_changed(l0, m, l0.arts[i].postid) ==> (
        #[trigger] fin.arts[i]).timestamp == l0.arts[i].timestamp
    &&& forall|i: int|
        0 <= i < l0.arts.len() && l0.arts[i].deleted ==> (#[trigger] fin.arts[i]).deleted
    &&& forall|i: int|
        0 <= i < l0.arts.len() && id_in_remote_deleted(l0, m, l0.arts[i].postid) ==> (
        #[trigger] fin.arts[i]).deleted
    &&& forall|i: int|
        0 <= i < l0.arts.len() && !l0.arts[i].deleted && !id_in_remote_deleted(
            l0,
            m,
            l0.arts[i].postid,
        ) ==> !(#[trigger] fin.arts[i]).deleted
}

/// A store whose rows the remote-origin pass has rewritten is settled
/// against the mirror.
#[verifier::rlimit(100)]
#[verifier::spinoff_prover]
proof fn lemma_remote_rows_settled(l0: StoreView, m: StoreView, fin: StoreView)
    requires
        l0.wf(),
        m.wf(),
        m.clean(),
        remote_rows_characterized(l0, m, fin),
    ensures
        remote_pass_settled(fin, m),
{
    broadcast use vstd::seq_lib::group_filter_ensures;

    let new_pred = |r: RecView| is_new_remote(l0, r);
    let chg_pred = |r: RecView| is_changed_remote(l0, r);
    let del_pred = |r: RecView| is_deleted_remote(l0, r);
    let nv = spec_remote_new(l0, m);
    let cv = spec_remote_changed(l0, m);
    let dvs = spec_remote_deleted(l0, m);

    // Every live mirror row has a live local row at least as new.
    assert forall|k: int|
        0 <= k < m.arts.len() && !(#[trigger] m.arts[k]).deleted implies exists|i: int|
        0 <= i < fin.arts.len() && !fin.arts[i].deleted && fin.arts[i].postid == m.arts[k].postid
            && fin.arts[i].timestamp >= m.arts[k].timestamp by {
        let mk = m.arts[k];
        // A live mirror identifier never stands in the deleted-remote set,
        // because the mirror is clean.
        assert forall|kk: int| 0 <= kk < dvs.len() implies (#[trigger] dvs[kk]).postid
            != mk.postid by {
            m.arts.lemma_filter_contains_rev(del_pred, dvs[kk]);
            m.arts.lemma_filter_pred(del_pred, kk);
            let w = choose|w: int| 0 <= w < m.arts.len() && m.arts[w] == dvs[kk];
            assert(m.arts[w].deleted && !m.arts[k].deleted);
        }
        if is_new_remote(l0, mk) {
            m.arts.lemma_filter_contains(new_pred, k);
            let j = choose|j: int| 0 <= j < nv.len() && nv[j] == mk;
            let i = l0.arts.len() + j;
            assert(fin.arts[i] == nv[j]);
            assert(!fin.arts[i].deleted && fin.arts[i].postid == mk.postid
                && fin.arts[i].timestamp >= mk.timestamp);
        } else {
            let i0 = choose|i0: int|
                0 <= i0 < l0.arts.len() && !l0.arts[i0].deleted && l0.arts[i0].postid
                    == mk.postid;
            assert(!id_in_remote_deleted(l0, m, l0.arts[i0].postid)) by {
                if id_in_remote_deleted(l0, m, l0.arts[i0].postid) {
                    let kk = choose|kk: int|
                        0 <= kk < dvs.len() && (#[trigger] dvs[kk]).postid == l0.arts[i0].postid;
                }
            }
            assert(!fin.arts[i0].deleted);
            if is_changed_remote(l0, mk) {
                m.arts.lemma_filter_contains(chg_pred, k);
                let j = choose|j: int| 0 <= j < cv.len() && cv[j] == mk;
                assert(fin.arts[i0].timestamp == cv[j].timestamp);
                assert(fin.arts[i0].timestamp >= mk.timestamp);
            } else {
                // Neither new nor changed: the old row is at least as new,
                // and no changed-remote row shares its identifier, because
                // live mirror identifiers are pairwise distinct.
                assert forall|kk: int| 0 <= kk < cv.len() implies l0.arts[i0].postid != (
                #[trigger] cv[kk]).postid by {
                    m.arts.lemma_filter_contains_rev(chg_pred, cv[kk]);
                    let w = choose|w: int| 0 <= w < m.arts.len() && m.arts[w] == cv[kk];
                    if l0.arts[i0].postid == cv[kk].postid {
                        assert(!m.arts[w].deleted && !m.arts[k].deleted);
                        if w != k {
                            assert(m.arts[w].postid != m.arts[k].postid);
                        } else {
                            assert(is_changed_remote(l0, mk));
                        }
                    }
                }
                assert(!id_in_remote_changed(l0, m, l0.arts[i0].postid));
                assert(fin.arts[i0].timestamp == l0.arts[i0].timestamp);
                assert(!(mk.timestamp > l0.arts[i0].timestamp));
                assert(fin.arts[i0].timestamp >= mk.timestamp);
            }
        }
    }
    // No mirror tombstone's post is live.
    assert forall|k: int|
        0 <= k < m.arts.len() && (#[trigger] m.arts[k]).deleted implies !fin.has_existing_postid(
        m.arts[k].postid,
    ) by {
        let mk = m.arts[k];
        assert forall|i: int|
            0 <= i < fin.arts.len() && !(#[trigger] fin.arts[i]).deleted implies
        fin.arts[i].postid != mk.postid by {
            if i < l0.arts.len() {
                assert(!l0.arts[i].deleted) by {
                    if l0.arts[i].deleted {
                        assert(fin.arts[i].deleted);
                    }
                }
                if l0.arts[i].postid == mk.postid {
                    assert(is_deleted_remote(l0, mk));
                    m.arts.lemma_filter_contains(del_pred, k);
                    let q = choose|q: int| 0 <= q < dvs.len() && dvs[q] == mk;
                    assert(id_in_remote_deleted(l0, m, l0.arts[i].postid));
                    assert(fin.arts[i].deleted);
                }
            } else {
                let j = i - l0.arts.len();
                let nv0 = spec_remote_new(l0, m);
                assert(fin.arts[i] == nv0[j]);
                m.arts.lemma_filter_pred(new_pred, j);
                m.arts.lemma_filter_contains_rev(new_pred, nv0[j]);
                let w = choose|w: int| 0 <= w < m.arts.len() && m.arts[w] == nv0[j];
                assert(!m.arts[w].deleted && m.arts[k].deleted);
                assert(m.arts[w].postid != m.arts[k].postid);
            }
        }
    }
    assert(remote_pass_settled(fin, m));
}

/// Apply the whole remote-origin pass to the local store: insert a row for
/// every new-remote record, advance the timestamp of every changed-remote
/// record, and tombstone every deleted-remote record. The final rows are a
/// function of the old rows and the action sets: the old rows keep their
/// paths and identifiers, a row's timestamp becomes the changed-remote
/// timestamp of its identifier and otherwise stays, a row is tombstoned
/// exactly when it was or its identifier is a deleted-remote identifier,
/// and the new-remote records are appended verbatim. Afterwards the local
/// store is settled against the mirror, so recomputing the pass yields
/// nothing (the idempotence law).
#[verifier::rlimit(100)]
#[verifier::spinoff_prover]
pub fn apply_remote_origin(local: &mut Store, mirror: &Store)
    requires
        old(local)@.wf(),
        mirror@.wf(),
        mirror@.clean(),
        path_compatible(old(local)@, mirror@),
    ensures
        final(local)@.wf(),
        final(local)@.cats == old(local)@.cats,
        remote_pass_settled(final(local)@, mirror@),
        remote_rows_characterized(old(local)@, mirror@, final(local)@),
{
    broadcast use vstd::seq_lib::group_filter_ensures;

    let ghost l0 = local@;
    let ghost m = mirror@;
    let ghost new_pred = |r: RecView| is_new_remote(l0, r);
    let ghost chg_pred = |r: RecView| is_changed_remote(l0, r);
    let ghost nv = spec_remote_new(l0, m);
    let ghost cv = spec_remote_changed(l0, m);
    let ghost dv = spec_remote_deleted(l0, m);
    proof {
        lemma_filter_live_distinct(m.arts, new_pred);
        lemma_filter_live_distinct(m.arts, chg_pred);
    }

    let new_blogs = get_remote_new_blogs_info(local, mirror);
    let changed_blogs = get_remote_changed_blogs_info(local, mirror);
    let deleted_blogs = get_remote_deleted_blogs_info(local, mirror);
    let ghost dvx = deleted_blogs@.map_values(|b: BlogsInfoDO| b@);
    proof {
        assert forall|kk: int|
            0 <= kk < dvx.len() implies first_deleted_remote(l0, m, #[trigger] dvx[kk]) by {
            assert(first_deleted_remote(l0, m, deleted_blogs@[kk]@));
        }
        assert forall|w: int|
            0 <= w < m.arts.len() && is_deleted_remote(l0, #[trigger] m.arts[w]) implies exists|
                kk: int,
            |
                0 <= kk < dvx.len() && (#[trigger] dvx[kk]).postid == m.arts[w].postid by {
            let k0 = choose|k0: int|
                0 <= k0 < deleted_blogs@.len() && (#[trigger] deleted_blogs@[k0])@.postid
                    == m.arts[w].postid;
            assert(dvx[k0].postid == m.arts[w].postid);
        }
    }

    // Insert the new-remote rows.
    let mut n: usize = 0;
    while n < new_blogs.len()
        invariant
            new_blogs@.map_values(|b: BlogsInfoDO| b@) =~= nv,
            nv == spec_remote_new(l0, m),
            new_pred == (|r: RecView| is_new_remote(l0, r)),
            n <= nv.len(),
            local@.wf(),
            local@.cats == l0.cats,
            local@.arts =~= l0.arts + nv.take(n as int),
            l0.wf(),
            m.wf(),
            m.clean(),
            path_compatible(l0, m),
            forall|i: int, j: int|
                0 <= i < j < nv.len() ==> (#[trigger] nv[i]).path != (#[trigger] nv[j]).path
                    && nv[i].postid != nv[j].postid,
        decreases new_blogs@.len() - n,
    {
        let row = &new_blogs[n];
        proof {
            assert(row@ == nv[n as int]);
            m.arts.lemma_filter_pred(new_pred, n as int);
            assert(new_pred(nv[n as int]));
            assert(!nv[n as int].deleted && !l0.has_existing_postid(nv[n as int].postid));
            // The row comes from the mirror, so path compatibility rules out
            // a live local row carrying its path under another identifier.
            m.arts.lemma_filter_contains_rev(new_pred, nv[n as int]);
            let w = choose|w: int| 0 <= w < m.arts.len() && m.arts[w] == nv[n as int];
            assert forall|i: int|
                0 <= i < local@.arts.len() && !local@.arts[i].deleted implies !(local@.arts[i].path
                == nv[n as int].path) by {
                if i < l0.arts.len() {
                    assert(local@.arts[i] == l0.arts[i]);
                    if l0.arts[i].path == m.arts[w].path {
                        assert(l0.arts[i].postid == m.arts[w].postid);
                        assert(l0.has_existing_postid(nv[n as int].postid));
                    }
                } else {
                    assert(local@.arts[i] == nv[i - l0.arts.len()]);
                }
            }
            assert(!local@.has_existing_path(row.blog_path@));
            assert forall|i: int|
                0 <= i < local@.arts.len() && !local@.arts[i].deleted implies !(
            local@.arts[i].postid == nv[n as int].postid) by {
                if i < l0.arts.len() {
                    assert(local@.arts[i] == l0.arts[i]);
                } else {
                    assert(local@.arts[i] == nv[i - l0.arts.len()]);
                }
            }
            assert(!local@.has_existing_postid(row.postid as int));
        }
        local.new_post(row.blog_path.clone(), row.postid, row.timestamp);
        proof {
            assert(local@.arts =~= l0.arts + nv.take(n as int).push(
                RecView {
                    path: row.blog_path@,
                    postid: row.postid as int,
                    timestamp: row.timestamp as int,
                    deleted: false,
                },
            ));
            assert(nv[n as int] == RecView {
                path: row.blog_path@,
                postid: row.postid as int,
                timestamp: row.timestamp as int,
                deleted: false,
            });
            assert(nv.take(n as int).push(nv[n as int]) =~= nv.take(n + 1));
            assert(local@.arts =~= l0.arts + nv.take(n + 1));
        }
        n += 1;
    }
    proof {
        assert(nv.take(nv.len() as int) =~= nv);
    }
    let ghost arts1 = l0.arts + nv;

    // Advance the timestamps of the changed-remote rows.
    let mut c: usize = 0;
    while c < changed_blogs.len()
        invariant
            changed_blogs@.map_values(|b: BlogsInfoDO| b@) =~= cv,
            cv == spec_remote_changed(l0, m),
            c <= cv.len(),
            local@.wf(),
            local@.cats == l0.cats,
            local@.arts.len() == arts1.len(),
            arts1 == l0.arts + nv,
            l0.wf(),
            m.wf(),
            m.clean(),
            forall|i: int, j: int|
                0 <= i < j < cv.len() ==> (#[trigger] cv[i]).postid != (#[trigger] cv[j]).postid,
            forall|i: int|
                0 <= i < arts1.len() ==> (#[trigger] local@.arts[i]).path == arts1[i].path
                    && local@.arts[i].postid == arts1[i].postid && local@.arts[i].deleted
                    == arts1[i].deleted,
            forall|k: int|
                0 <= k < c ==> forall|i: int|
                    0 <= i < arts1.len() && (#[trigger] local@.arts[i]).postid == (
                    #[trigger] cv[k]).postid ==> local@.arts[i].timestamp == cv[k].timestamp,
            forall|i: int|
                0 <= i < arts1.len() && (forall|k: int|
                    0 <= k < c ==> arts1[i].postid != (#[trigger] cv[k]).postid) ==> (
                #[trigger] local@.arts[i]).timestamp == arts1[i].timestamp,
        decreases changed_blogs@.len() - c,
    {
        let row = &changed_blogs[c];
        proof {
            assert(row@ == cv[c as int]);
        }
        let ghost before = local@.arts;
        local.edit_post(row.postid, row.timestamp);
        proof {
            assert forall|i: int|
                0 <= i < arts1.len() implies (#[trigger] local@.arts[i]).path == arts1[i].path
                && local@.arts[i].postid == arts1[i].postid && local@.arts[i].deleted
                == arts1[i].deleted by {
                assert(local@.arts[i] == crate::store::rec_with_ts(
                    before[i],
                    row.postid as int,
                    row.timestamp as int,
                ));
            }
            assert forall|k: int, i: int|
                0 <= k < c + 1 && 0 <= i < arts1.len() && (#[trigger] local@.arts[i]).postid == (
                #[trigger] cv[k]).postid implies local@.arts[i].timestamp == cv[k].timestamp by {
                assert(local@.arts[i] == crate::store::rec_with_ts(
                    before[i],
                    row.postid as int,
                    row.timestamp as int,
                ));
                if k < c {
                    assert(cv[k].postid != cv[c as int].postid);
                    assert(before[i].timestamp == cv[k].timestamp);
                } else {
                    assert(cv[k] == cv[c as int]);
                }
            }
            assert forall|i: int|
                0 <= i < arts1.len() && (forall|k: int|
                    0 <= k < c + 1 ==> arts1[i].postid != (#[trigger] cv[k]).postid) implies (
            #[trigger] local@.arts[i]).timestamp == arts1[i].timestamp by {
                assert(arts1[i].postid != cv[c as int].postid);
                assert(local@.arts[i] == crate::store::rec_with_ts(
                    before[i],
                    row.postid as int,
                    row.timestamp as int,
                ));
            }
        }
        c += 1;
    }

    let ghost arts2 = local@.arts;

    // Tombstone the deleted-remote rows.
    let mut d: usize = 0;
    while d < deleted_blogs.len()
        invariant
            dvx == deleted_blogs@.map_values(|b: BlogsInfoDO| b@),
            forall|kk: int| 0 <= kk < dvx.len() ==> first_deleted_remote(l0, m, #[trigger] dvx[kk]),
            forall|w: int|
                0 <= w < m.arts.len() && is_deleted_remote(l0, #[trigger] m.arts[w]) ==> exists|
                    kk: int,
                |
                    0 <= kk < dvx.len() && (#[trigger] dvx[kk]).postid == m.arts[w].postid,
            d <= dvx.len(),
            local@.wf(),
            local@.cats == l0.cats,
            local@.arts.len() == arts2.len(),
            forall|i: int|
                0 <= i < arts2.len() ==> (#[trigger] local@.arts[i]).path == arts2[i].path
                    && local@.arts[i].postid == arts2[i].postid && local@.arts[i].timestamp
                    == arts2[i].timestamp,
            forall|k: int|
                0 <= k < d ==> !local@.has_existing_postid((#[trigger] dvx[k]).postid),
            forall|i: int|
                0 <= i < arts2.len() && (forall|k: int|
                    0 <= k < d ==> arts2[i].postid != (#[trigger] dvx[k]).postid) ==> (
                #[trigger] local@.arts[i]).deleted == arts2[i].deleted,
            forall|i: int|
                0 <= i < arts2.len() && arts2[i].deleted ==> (#[trigger] local@.arts[i]).deleted,
        decreases deleted_blogs@.len() - d,
    {
        let row = &deleted_blogs[d];
        proof {
            assert(row@ == dvx[d as int]);
        }
        let ghost before = local@.arts;
        local.delete_post(row.postid);
        proof {
            assert forall|i: int|
                0 <= i < arts2.len() implies (#[trigger] local@.arts[i]).path == arts2[i].path
                && local@.arts[i].postid == arts2[i].postid && local@.arts[i].timestamp
                == arts2[i].timestamp by {
                assert(local@.arts[i] == crate::store::rec_deleted_if(
                    before[i],
                    row.postid as int,
                ));
            }
            assert forall|k: int|
                0 <= k < d + 1 implies !local@.has_existing_postid(
                (#[trigger] dvx[k]).postid,
            ) by {
                assert forall|i: int|
                    0 <= i < local@.arts.len() && !(#[trigger] local@.arts[i]).deleted implies
                local@.arts[i].postid != dvx[k].postid by {
                    assert(local@.arts[i] == crate::store::rec_deleted_if(
                        before[i],
                        row.postid as int,
                    ));
                    if k < d {
                        assert(!before[i].deleted);
                        assert(before[i].postid != dvx[k].postid);
                    }
                }
            }
            assert forall|i: int|
                0 <= i < arts2.len() && (forall|k: int|
                    0 <= k < d + 1 ==> arts2[i].postid != (#[trigger] dvx[k]).postid) implies (
            #[trigger] local@.arts[i]).deleted == arts2[i].deleted by {
                assert(arts2[i].postid != dvx[d as int].postid);
                assert(local@.arts[i] == crate::store::rec_deleted_if(
                    before[i],
                    row.postid as int,
                ));
            }
        }
        d += 1;
    }

    // The terminal facts follow in two steps from the loop-exit facts.
    proof {
        lemma_remote_apply_rows(l0, m, nv, cv, dvx, arts1, arts2, local@);
        lemma_remote_rows_settled(l0, m, local@);
    }
}

/// Entries kept from a listing with pairwise distinct paths again carry
/// pairwise distinct paths.
proof fn lemma_filter_entries_distinct(s: Seq<FileEntryView>, pred: spec_fn(FileEntryView) -> bool)
    requires
        forall|i: int, j: int| 0 <= i < j < s.len() ==> s[i].path != s[j].path,
    ensures
        forall|i: int, j: int|
            0 <= i < j < s.filter(pred).len() ==> (#[trigger] s.filter(pred)[i]).path != (
            #[trigger] s.filter(pred)[j]).path,
    decreases s.len(),
{
    reveal(Seq::filter);
    broadcast use vstd::seq_lib::group_filter_ensures;

    if s.len() > 0 {
        let rest = s.drop_last();
        lemma_filter_entries_distinct(rest, pred);
        let f = s.filter(pred);
        let fr = rest.filter(pred);
        if pred(s.last()) {
            assert(f == fr.push(s.last()));
            assert forall|i: int, j: int|
                0 <= i < j < f.len() implies (#[trigger] f[i]).path != (#[trigger] f[j]).path by {
                if j == f.len() - 1 {
                    assert(f[j] == s.last());
                    assert(f[i] == fr[i]);
                    assert(fr.contains(fr[i]));
                    rest.lemma_filter_contains_rev(pred, fr[i]);
                    let w = choose|w: int| 0 <= w < rest.len() && rest[w] == fr[i];
                    assert(s[w] == fr[i]);
                    assert(s[w].path != s[s.len() - 1].path);
                } else {
                    assert(f[i] == fr[i] && f[j] == fr[j]);
                }
            }
        } else {
            assert(f == fr);
        }
    }
}

/// The rows inserted for the new-local entries: one live row per entry,
/// carrying the freshly minted remote identifier and the file's timestamp.
pub open spec fn new_rows(nv: Seq<FileEntryView>, ids: Seq<i32>) -> Seq<RecView> {
    Seq::new(
        nv.len(),
        |k: int|
            RecView {
                path: nv[k].path,
                postid: ids[k] as int,
                timestamp: nv[k].timestamp,
                deleted: false,
            },
    )
}

/// Some file entry names this live row as changed: a live row carries the
/// entry's path, the entry is strictly newer, and the row carries the
/// identifier.
pub open spec fn changed_entry_for(
    l0: StoreView,
    lv: Seq<FileEntryView>,
    id: int,
    ts: int,
) -> bool {
    exists|j: int, k: int|
        #![trigger l0.arts[j], lv[k]]
        0 <= j < l0.arts.len() && !l0.arts[j].deleted && 0 <= k < lv.len() && l0.arts[j].path
            == lv[k].path && lv[k].timestamp > l0.arts[j].timestamp && l0.arts[j].postid == id
            && lv[k].timestamp == ts
}

/// The identifier belongs to some changed-local action.
pub open spec fn id_changed_local(l0: StoreView, lv: Seq<FileEntryView>, id: int) -> bool {
    exists|ts: int| #[trigger] changed_entry_for(l0, lv, id, ts)
}

/// How the local-origin pass rewrites the rows: old rows keep their paths
/// and identifiers; a row's timestamp becomes the changed file's
/// modification time when one names its identifier and otherwise stays; a
/// row ends tombstoned exactly when it was already, or its path is on no
/// file any more; and one live row per new file is appended, under the
/// freshly minted identifiers, verbatim.
pub open spec fn local_rows_characterized(
    l0: StoreView,
    lv: Seq<FileEntryView>,
    ids: Seq<i32>,
    fin: StoreView,
) -> bool {
    &&& fin.arts.len() == l0.arts.len() + spec_local_new(l0, lv).len()
    &&& forall|i: int|
        0 <= i < l0.arts.len() ==> (#[trigger] fin.arts[i]).path == l0.arts[i].path
            && fin.arts[i].postid == l0.arts[i].postid
    &&& forall|q: int|
        0 <= q < spec_local_new(l0, lv).len() ==> fin.arts[l0.arts.len() + q] == new_rows(
            spec_local_new(l0, lv),
            ids,
        )[q]
    &&& forall|i: int, ts: int|
        #![trigger fin.arts[i], changed_entry_for(l0, lv, l0.arts[i].postid, ts)]
        0 <= i < l0.arts.len() && changed_entry_for(l0, lv, l0.arts[i].postid, ts)
            ==> fin.arts[i].timestamp == ts
    &&& forall|i: int|
        0 <= i < l0.arts.len() && !id_changed_local(l0, lv, l0.arts[i].postid) ==> (
        #[trigger] fin.arts[i]).timestamp == l0.arts[i].timestamp
    &&& forall|i: int|
        0 <= i < l0.arts.len() ==> ((#[trigger] fin.arts[i]).deleted <==> (l0.arts[i].deleted
            || !listing_paths(lv).contains(l0.arts[i].path)))
}

/// The final rows the local-origin pass leaves, concluded from the exit
/// facts of its three loops.
#[verifier::rlimit(100)]
#[verifier::spinoff_prover]
proof fn lemma_local_apply_rows(
    l0: StoreView,
    lv: Seq<FileEntryView>,
    ids: Seq<i32>,
    cb: Seq<crate::reconcile::ChangedBlogView>,
    arts1: Seq<RecView>,
    arts2: Seq<RecView>,
    fin: StoreView,
)
    requires
        l0.wf(),
        forall|i: int, j: int| 0 <= i < j < lv.len() ==> lv[i].path != lv[j].path,
        ids.len() == spec_local_new(l0, lv).len(),
        forall|k: int|
            0 <= k < ids.len() ==> !l0.has_existing_postid(#[trigger] ids[k] as int),
        arts1 == l0.arts + new_rows(spec_local_new(l0, lv), ids),
        cb.len() == spec_local_changed(l0, lv).len(),
        forall|k: int|
            0 <= k < cb.len() ==> (#[trigger] cb[k]).path == spec_local_changed(l0, lv)[k].path
                && cb[k].timestamp == spec_local_changed(l0, lv)[k].timestamp && carries_row(
                l0,
                cb[k],
            ),
        forall|k1: int, k2: int|
            0 <= k1 < k2 < cb.len() ==> (#[trigger] cb[k1]).postid != (#[trigger] cb[k2]).postid,
        arts2.len() == arts1.len(),
        forall|i: int|
            0 <= i < arts1.len() ==> (#[trigger] arts2[i]).path == arts1[i].path
                && arts2[i].postid == arts1[i].postid && arts2[i].deleted == arts1[i].deleted,
        forall|k: int|
            0 <= k < cb.len() ==> forall|i: int|
                0 <= i < arts1.len() && (#[trigger] arts2[i]).postid == (#[trigger] cb[k]).postid
                    ==> arts2[i].timestamp == cb[k].timestamp,
        forall|i: int|
            0 <= i < arts1.len() && (forall|k: int|
                0 <= k < cb.len() ==> arts1[i].postid != (#[trigger] cb[k]).postid) ==> (
            #[trigger] arts2[i]).timestamp == arts1[i].timestamp,
        fin.arts.len() == arts2.len(),
        forall|i: int|
            0 <= i < arts2.len() ==> (#[trigger] fin.arts[i]).path == arts2[i].path
                && fin.arts[i].postid == arts2[i].postid && fin.arts[i].timestamp
                == arts2[i].timestamp,
        forall|k: int|
            0 <= k < spec_local_deleted(l0, lv).len() ==> !fin.has_existing_postid(
                (#[trigger] spec_local_deleted(l0, lv)[k]).postid,
            ),
        forall|i: int|
            0 <= i < arts2.len() && (forall|k: int|
                0 <= k < spec_local_deleted(l0, lv).len() ==> arts2[i].postid != (
                #[trigger] spec_local_deleted(l0, lv)[k]).postid) ==> (
            #[trigger] fin.arts[i]).deleted == arts2[i].deleted,
        forall|i: int|
            0 <= i < arts2.len() && arts2[i].deleted ==> (#[trigger] fin.arts[i]).deleted,
    ensures
        local_rows_characterized(l0, lv, ids, fin),
{
    broadcast use vstd::seq_lib::group_filter_ensures;

    let new_pred = |e: FileEntryView| is_new_local(l0, e);
    let chg_pred = |e: FileEntryView| is_changed_local(l0, e);
    let del_pred = |r: RecView| is_deleted_local(listing_paths(lv), r);
    let nv = spec_local_new(l0, lv);
    let cv = spec_local_changed(l0, lv);
    let dvl = spec_local_deleted(l0, lv);
    let rows = new_rows(nv, ids);

    // A changed action's identifier is a live identifier of the old store,
    // and the other way round: an identifier with a changed entry has a
    // changed action.
    assert forall|k: int|
        0 <= k < cb.len() implies id_changed_local(l0, lv, (#[trigger] cb[k]).postid)
        && l0.has_existing_postid(cb[k].postid) by {
        let j = choose|j: int|
            0 <= j < l0.arts.len() && !l0.arts[j].deleted && l0.arts[j].path == cb[k].path
                && l0.arts[j].postid == cb[k].postid;
        lv.lemma_filter_contains_rev(chg_pred, cv[k]);
        lv.lemma_filter_pred(chg_pred, k);
        let w = choose|w: int| 0 <= w < lv.len() && lv[w] == cv[k];
        assert(is_changed_local(l0, lv[w]));
        let j2 = choose|j2: int|
            0 <= j2 < l0.arts.len() && !l0.arts[j2].deleted && l0.arts[j2].path == lv[w].path
                && lv[w].timestamp > l0.arts[j2].timestamp;
        assert(j2 == j);
        assert(changed_entry_for(l0, lv, cb[k].postid, lv[w].timestamp));
    }
    assert forall|id: int, ts: int|
        #[trigger] changed_entry_for(l0, lv, id, ts) implies exists|k: int|
        0 <= k < cb.len() && (#[trigger] cb[k]).postid == id && cb[k].timestamp == ts by {
        let (j, w): (int, int) = choose|j: int, w: int|
            #![trigger l0.arts[j], lv[w]]
            0 <= j < l0.arts.len() && !l0.arts[j].deleted && 0 <= w < lv.len() && l0.arts[j].path
                == lv[w].path && lv[w].timestamp > l0.arts[j].timestamp && l0.arts[j].postid
                == id && lv[w].timestamp == ts;
        assert(is_changed_local(l0, lv[w]));
        lv.lemma_filter_contains(chg_pred, w);
        let q = choose|q: int| 0 <= q < cv.len() && cv[q] == lv[w];
        let j3 = choose|j3: int|
            0 <= j3 < l0.arts.len() && !l0.arts[j3].deleted && l0.arts[j3].path == cb[q].path
                && l0.arts[j3].postid == cb[q].postid;
        assert(j3 == j);
        assert(cb[q].postid == id && cb[q].timestamp == ts);
    }
    // Deleted-local identifiers are live identifiers of rows whose paths
    // are gone.
    assert forall|k: int|
        0 <= k < dvl.len() implies l0.has_existing_postid((#[trigger] dvl[k]).postid) && !(
        #[trigger] dvl[k]).deleted && !listing_paths(lv).contains(dvl[k].path) by {
        l0.arts.lemma_filter_pred(del_pred, k);
        l0.arts.lemma_filter_contains_rev(del_pred, dvl[k]);
        let w = choose|w: int| 0 <= w < l0.arts.len() && l0.arts[w] == dvl[k];
    }

    // The appended rows come through both later loops untouched.
    assert forall|q: int|
        0 <= q < nv.len() implies fin.arts[l0.arts.len() + q] == rows[q] by {
        let i = l0.arts.len() + q;
        assert(arts1[i] == rows[q]);
        assert(rows[q].postid == ids[q] as int && !rows[q].deleted);
        assert forall|kk: int| 0 <= kk < cb.len() implies arts1[i].postid != (
        #[trigger] cb[kk]).postid by {
            if arts1[i].postid == cb[kk].postid {
                assert(l0.has_existing_postid(ids[q] as int));
            }
        }
        assert(arts2[i].timestamp == arts1[i].timestamp);
        assert forall|kk: int| 0 <= kk < dvl.len() implies arts2[i].postid != (
        #[trigger] dvl[kk]).postid by {
            if arts2[i].postid == dvl[kk].postid {
                assert(l0.has_existing_postid(ids[q] as int));
            }
        }
        assert(fin.arts[i].deleted == arts2[i].deleted);
        assert(fin.arts[i] =~= rows[q]);
    }

    // Timestamps: set by the changed entries, untouched otherwise.
    assert forall|i: int, ts: int|
        #![trigger fin.arts[i], changed_entry_for(l0, lv, l0.arts[i].postid, ts)]
        0 <= i < l0.arts.len() && changed_entry_for(l0, lv, l0.arts[i].postid, ts) implies
    fin.arts[i].timestamp == ts by {
        assert(arts1[i] == l0.arts[i]);
        let k = choose|k: int|
            0 <= k < cb.len() && (#[trigger] cb[k]).postid == l0.arts[i].postid
                && cb[k].timestamp == ts;
        assert(arts2[i].postid == cb[k].postid);
        assert(arts2[i].timestamp == cb[k].timestamp);
    }
    assert forall|i: int|
        0 <= i < l0.arts.len() && !id_changed_local(l0, lv, l0.arts[i].postid) implies (
    #[trigger] fin.arts[i]).timestamp == l0.arts[i].timestamp by {
        assert(arts1[i] == l0.arts[i]);
        assert forall|k: int| 0 <= k < cb.len() implies arts1[i].postid != (
        #[trigger] cb[k]).postid by {
            if arts1[i].postid == cb[k].postid {
                assert(id_changed_local(l0, lv, l0.arts[i].postid));
            }
        }
        assert(arts2[i].timestamp == arts1[i].timestamp);
    }

    // Tombstones: a row ends tombstoned exactly when it already was or its
    // path is on no file any more.
    assert forall|i: int|
        0 <= i < l0.arts.len() implies ((#[trigger] fin.arts[i]).deleted <==> (
        l0.arts[i].deleted || !listing_paths(lv).contains(l0.arts[i].path))) by {
        assert(arts1[i] == l0.arts[i]);
        if l0.arts[i].deleted {
            assert(arts2[i].deleted);
            assert(fin.arts[i].deleted);
        } else if !listing_paths(lv).contains(l0.arts[i].path) {
            assert(is_deleted_local(listing_paths(lv), l0.arts[i]));
            l0.arts.lemma_filter_contains(del_pred, i);
            let q = choose|q: int| 0 <= q < dvl.len() && dvl[q] == l0.arts[i];
            assert(!fin.has_existing_postid(dvl[q].postid));
            assert(fin.arts[i].postid == dvl[q].postid);
            if !fin.arts[i].deleted {
                assert(fin.has_existing_postid(dvl[q].postid));
            }
        } else {
            // The row's file is still on disk: no deleted-local action
            // carries its identifier, because live identifiers are unique.
            assert forall|kk: int| 0 <= kk < dvl.len() implies arts2[i].postid != (
            #[trigger] dvl[kk]).postid by {
                if arts2[i].postid == dvl[kk].postid {
                    let w = choose|w: int|
                        0 <= w < l0.arts.len() && !l0.arts[w].deleted && l0.arts[w].postid
                            == dvl[kk].postid;
                    l0.arts.lemma_filter_contains_rev(del_pred, dvl[kk]);
                    let v = choose|v: int| 0 <= v < l0.arts.len() && l0.arts[v] == dvl[kk];
                    assert(v == i);
                }
            }
            assert(fin.arts[i].deleted == arts2[i].deleted);
            assert(!arts2[i].deleted);
        }
    }
}

/// Apply the whole local-origin pass to the local store: insert a row for
/// every new file under its freshly minted remote identifier, advance the
/// timestamp of every changed file's row, and tombstone every row whose file
/// has gone. Afterwards the local store is settled against the listing, so
/// recomputing the pass yields nothing (the idempotence law).
#[verifier::rlimit(100)]
#[verifier::spinoff_prover]
pub fn apply_local_origin(local: &mut Store, listing: &Vec<FileEntry>, new_postids: &Vec<i32>)
    requires
        old(local)@.wf(),
        forall|i: int, j: int|
            0 <= i < j < listing@.len() ==> listing@[i]@.path != listing@[j]@.path,
        new_postids@.len() == spec_local_new(old(local)@, listing.deep_view()).len(),
        forall|k: int|
            0 <= k < new_postids@.len() ==> !old(local)@.has_existing_postid(
                #[trigger] new_postids@[k] as int,
            ),
        forall|i: int, j: int|
            0 <= i < j < new_postids@.len() ==> new_postids@[i] != new_postids@[j],
    ensures
        final(local)@.wf(),
        final(local)@.cats == old(local)@.cats,
        local_pass_settled(final(local)@, listing.deep_view()),
        local_rows_characterized(
            old(local)@,
            listing.deep_view(),
            new_postids@,
            final(local)@,
        ),
{
    broadcast use vstd::seq_lib::group_filter_ensures;

    let ghost l0 = local@;
    let ghost lv = listing.deep_view();
    let ghost new_pred = |e: FileEntryView| is_new_local(l0, e);
    let ghost chg_pred = |e: FileEntryView| is_changed_local(l0, e);
    let ghost del_pred = |r: RecView| is_deleted_local(listing_paths(lv), r);
    let ghost nv = spec_local_new(l0, lv);
    let ghost dv = spec_local_deleted(l0, lv);
    proof {
        assert(lv =~= listing@.map_values(|e: FileEntry| e@));
        assert forall|i: int, j: int| 0 <= i < j < lv.len() implies lv[i].path != lv[j].path by {
            assert(lv[i] == listing@[i]@ && lv[j] == listing@[j]@);
        }
        lemma_filter_entries_distinct(lv, new_pred);
        lemma_filter_entries_distinct(lv, chg_pred);
    }

    let actions = local_origin_actions(local, listing);
    let new_blogs = actions.new_blogs;
    let changed_blogs = actions.changed_blogs;
    let deleted_blogs = actions.deleted_blogs;
    let ghost cb = changed_blogs@.map_values(|c: ChangedBlog| c@);
    let ghost cv = spec_local_changed(l0, lv);
    proof {
        assert(cb.len() == cv.len());
        assert forall|k: int|
            0 <= k < cb.len() implies (#[trigger] cb[k]).path == cv[k].path && cb[k].timestamp
            == cv[k].timestamp && carries_row(l0, cb[k]) by {
            assert(changed_blogs@.map_values(
                |c: ChangedBlog| FileEntryView { path: c.path@, timestamp: c.timestamp as int },
            )[k] == cv[k]);
            assert(carries_row(l0, changed_blogs@[k]@));
        }
        // Changed actions name pairwise distinct posts: their paths are
        // pairwise distinct files, each carried by a distinct live row, and
        // live rows carry distinct identifiers.
        assert forall|k1: int, k2: int|
            0 <= k1 < k2 < cb.len() implies (#[trigger] cb[k1]).postid != (
        #[trigger] cb[k2]).postid by {
            let j1 = choose|j1: int|
                0 <= j1 < l0.arts.len() && !l0.arts[j1].deleted && l0.arts[j1].path == cb[k1].path
                    && l0.arts[j1].postid == cb[k1].postid;
            let j2 = choose|j2: int|
                0 <= j2 < l0.arts.len() && !l0.arts[j2].deleted && l0.arts[j2].path == cb[k2].path
                    && l0.arts[j2].postid == cb[k2].postid;
            assert(cv[k1].path != cv[k2].path);
            assert(j1 != j2);
        }
    }

    // Insert a live row for every new file.
    let mut n: usize = 0;
    while n < new_blogs.len()
        invariant
            new_blogs@.map_values(|e: FileEntry| e@) =~= nv,
            nv == spec_local_new(l0, lv),
            new_pred == (|e: FileEntryView| is_new_local(l0, e)),
            n <= nv.len(),
            new_postids@.len() == nv.len(),
            local@.wf(),
            local@.cats == l0.cats,
            local@.arts =~= l0.arts + new_rows(nv, new_postids@).take(n as int),
            l0.wf(),
            forall|i: int, j: int|
                0 <= i < j < nv.len() ==> (#[trigger] nv[i]).path != (#[trigger] nv[j]).path,
            forall|k: int|
                0 <= k < new_postids@.len() ==> !l0.has_existing_postid(
                    #[trigger] new_postids@[k] as int,
                ),
            forall|i: int, j: int|
                0 <= i < j < new_postids@.len() ==> new_postids@[i] != new_postids@[j],
        decreases new_blogs@.len() - n,
    {
        let entry = &new_blogs[n];
        let id = new_postids[n];
        proof {
            assert(entry@ == nv[n as int]);
            lv.lemma_filter_pred(new_pred, n as int);
            assert(is_new_local(l0, nv[n as int]));
            assert forall|i: int|
                0 <= i < local@.arts.len() && !local@.arts[i].deleted implies !(local@.arts[i].path
                == nv[n as int].path) by {
                if i < l0.arts.len() {
                    assert(local@.arts[i] == l0.arts[i]);
                    if l0.arts[i].path == nv[n as int].path {
                        assert(l0.has_existing_path(nv[n as int].path));
                    }
                } else {
                    assert(local@.arts[i] == new_rows(nv, new_postids@)[i - l0.arts.len()]);
                }
            }
            assert(!local@.has_existing_path(entry.path@));
            assert forall|i: int|
                0 <= i < local@.arts.len() && !local@.arts[i].deleted implies !(
            local@.arts[i].postid == id as int) by {
                if i < l0.arts.len() {
                    assert(local@.arts[i] == l0.arts[i]);
                    if l0.arts[i].postid == id as int {
                        assert(l0.has_existing_postid(new_postids@[n as int] as int));
                    }
                } else {
                    assert(local@.arts[i] == new_rows(nv, new_postids@)[i - l0.arts.len()]);
                }
            }
            assert(!local@.has_existing_postid(id as int));
        }
        local.new_post(entry.path.clone(), id, entry.timestamp);
        proof {
            assert(new_rows(nv, new_postids@)[n as int] == RecView {
                path: entry.path@,
                postid: id as int,
                timestamp: entry.timestamp as int,
                deleted: false,
            });
            assert(new_rows(nv, new_postids@).take(n as int).push(
                new_rows(nv, new_postids@)[n as int],
            ) =~= new_rows(nv, new_postids@).take(n + 1));
            assert(local@.arts =~= l0.arts + new_rows(nv, new_postids@).take(n + 1));
        }
        n += 1;
    }
    proof {
        assert(new_rows(nv, new_postids@).take(nv.len() as int) =~= new_rows(nv, new_postids@));
    }
    let ghost arts1 = l0.arts + new_rows(nv, new_postids@);

    // Advance the timestamp of every changed file's row.
    let mut c: usize = 0;
    while c < changed_blogs.len()
        invariant
            cb == changed_blogs@.map_values(|x: ChangedBlog| x@),
            c <= cb.len(),
            local@.wf(),
            local@.cats == l0.cats,
            local@.arts.len() == arts1.len(),
            forall|i: int, j: int|
                0 <= i < j < cb.len() ==> (#[trigger] cb[i]).postid != (#[trigger] cb[j]).postid,
            forall|i: int|
                0 <= i < arts1.len() ==> (#[trigger] local@.arts[i]).path == arts1[i].path
                    && local@.arts[i].postid == arts1[i].postid && local@.arts[i].deleted
                    == arts1[i].deleted,
            forall|k: int|
                0 <= k < c ==> forall|i: int|
                    0 <= i < arts1.len() && (#[trigger] local@.arts[i]).postid == (
                    #[trigger] cb[k]).postid ==> local@.arts[i].timestamp == cb[k].timestamp,
            forall|i: int|
                0 <= i < arts1.len() && (forall|k: int|
                    0 <= k < c ==> arts1[i].postid != (#[trigger] cb[k]).postid) ==> (
                #[trigger] local@.arts[i]).timestamp == arts1[i].timestamp,
        decreases changed_blogs@.len() - c,
    {
        let row = &changed_blogs[c];
        proof {
            assert(row@ == cb[c as int]);
        }
        let ghost before = local@.arts;
        local.edit_post(row.postid, row.timestamp);
        proof {
            assert forall|i: int|
                0 <= i < arts1.len() implies (#[trigger] local@.arts[i]).path == arts1[i].path
                && local@.arts[i].postid == arts1[i].postid && local@.arts[i].deleted
                == arts1[i].deleted by {
                assert(local@.arts[i] == crate::store::rec_with_ts(
                    before[i],
                    row.postid as int,
                    row.timestamp as int,
                ));
            }
            assert forall|k: int, i: int|
                0 <= k < c + 1 && 0 <= i < arts1.len() && (#[trigger] local@.arts[i]).postid == (
                #[trigger] cb[k]).postid implies local@.arts[i].timestamp == cb[k].timestamp by {
                assert(local@.arts[i] == crate::store::rec_with_ts(
                    before[i],
                    row.postid as int,
                    row.timestamp as int,
                ));
                if k < c {
                    assert(cb[k].postid != cb[c as int].postid);
                    assert(before[i].timestamp == cb[k].timestamp);
                } else {
                    assert(cb[k] == cb[c as int]);
                }
            }
            assert forall|i: int|
                0 <= i < arts1.len() && (forall|k: int|
                    0 <= k < c + 1 ==> arts1[i].postid != (#[trigger] cb[k]).postid) implies (
            #[trigger] local@.arts[i]).timestamp == arts1[i].timestamp by {
                assert(arts1[i].postid != cb[c as int].postid);
                assert(local@.arts[i] == crate::store::rec_with_ts(
                    before[i],
                    row.postid as int,
                    row.timestamp as int,
                ));
            }
        }
        c += 1;
    }

    let ghost arts2 = local@.arts;

    // Tombstone every row whose file has gone.
    let mut d: usize = 0;
    while d < deleted_blogs.len()
        invariant
            deleted_blogs@.map_values(|b: BlogsInfoDO| b@) =~= dv,
            dv == spec_local_deleted(l0, lv),
            d <= dv.len(),
            local@.wf(),
            local@.cats == l0.cats,
            local@.arts.len() == arts2.len(),
            forall|i: int|
                0 <= i < arts2.len() ==> (#[trigger] local@.arts[i]).path == arts2[i].path
                    && local@.arts[i].postid == arts2[i].postid && local@.arts[i].timestamp
                    == arts2[i].timestamp,
            forall|k: int|
                0 <= k < d ==> !local@.has_existing_postid((#[trigger] dv[k]).postid),
            forall|i: int|
                0 <= i < arts2.len() && (forall|k: int|
                    0 <= k < d ==> arts2[i].postid != (#[trigger] dv[k]).postid) ==> (
                #[trigger] local@.arts[i]).deleted == arts2[i].deleted,
            forall|i: int|
                0 <= i < arts2.len() && arts2[i].deleted ==> (#[trigger] local@.arts[i]).deleted,
        decreases deleted_blogs@.len() - d,
    {
        let row = &deleted_blogs[d];
        proof {
            assert(row@ == dv[d as int]);
        }
        let ghost before = local@.arts;
        local.delete_post(row.postid);
        proof {
            assert forall|i: int|
                0 <= i < arts2.len() implies (#[trigger] local@.arts[i]).path == arts2[i].path
                && local@.arts[i].postid == arts2[i].postid && local@.arts[i].timestamp
                == arts2[i].timestamp by {
                assert(local@.arts[i] == crate::store::rec_deleted_if(
                    before[i],
                    row.postid as int,
                ));
            }
            assert forall|k: int|
                0 <= k < d + 1 implies !local@.has_existing_postid(
                (#[trigger] dv[k]).postid,
            ) by {
                assert forall|i: int|
                    0 <= i < local@.arts.len() && !(#[trigger] local@.arts[i]).deleted implies
                local@.arts[i].postid != dv[k].postid by {
                    assert(local@.arts[i] == crate::store::rec_deleted_if(
                        before[i],
                        row.postid as int,
                    ));
                    if k < d {
                        assert(!before[i].deleted);
                        assert(before[i].postid != dv[k].postid);
                    }
                }
            }
            assert forall|i: int|
                0 <= i < arts2.len() && (forall|k: int|
                    0 <= k < d + 1 ==> arts2[i].postid != (#[trigger] dv[k]).postid) implies (
            #[trigger] local@.arts[i]).deleted == arts2[i].deleted by {
                assert(arts2[i].postid != dv[d as int].postid);
                assert(local@.arts[i] == crate::store::rec_deleted_if(
                    before[i],
                    row.postid as int,
                ));
            }
        }
        d += 1;
    }

    // Settledness: every file has a live row at least as new, and every
    // live row's path is still on disk.
    proof {
        // Identifiers appearing in the changed and deleted action sets all
        // belong to live rows of the original store, so they never touch
        // the freshly inserted rows.
        assert forall|kk: int| 0 <= kk < cb.len() implies l0.has_existing_postid(
            (#[trigger] cb[kk]).postid,
        ) by {
            let j = choose|j: int|
                0 <= j < l0.arts.len() && !l0.arts[j].deleted && l0.arts[j].path == cb[kk].path
                    && l0.arts[j].postid == cb[kk].postid;
        }
        assert forall|kk: int| 0 <= kk < dv.len() implies l0.has_existing_postid(
            (#[trigger] dv[kk]).postid,
        ) && !(#[trigger] dv[kk]).deleted && !listing_paths(lv).contains(dv[kk].path) by {
            l0.arts.lemma_filter_contains_rev(del_pred, dv[kk]);
            l0.arts.lemma_filter_pred(del_pred, kk);
            let w = choose|w: int| 0 <= w < l0.arts.len() && l0.arts[w] == dv[kk];
        }

        assert forall|k: int|
            0 <= k < lv.len() implies crate::reconcile::covers_entry(local@, #[trigger] lv[k]) by {
            let e = lv[k];
            if is_new_local(l0, e) {
                lv.lemma_filter_contains(new_pred, k);
                let q = choose|q: int| 0 <= q < nv.len() && nv[q] == e;
                let i = l0.arts.len() + q;
                assert(arts1[i] == new_rows(nv, new_postids@)[q]);
                assert(arts1[i].path == e.path && arts1[i].timestamp == e.timestamp
                    && !arts1[i].deleted && arts1[i].postid == new_postids@[q] as int);
                assert forall|kk: int| 0 <= kk < cb.len() implies arts1[i].postid != (
                #[trigger] cb[kk]).postid by {
                    if arts1[i].postid == cb[kk].postid {
                        assert(l0.has_existing_postid(new_postids@[q] as int));
                    }
                }
                assert(arts2[i].timestamp == arts1[i].timestamp && arts2[i].deleted
                    == arts1[i].deleted && arts2[i].postid == arts1[i].postid);
                assert forall|kk: int| 0 <= kk < dv.len() implies arts2[i].postid != (
                #[trigger] dv[kk]).postid by {
                    if arts2[i].postid == dv[kk].postid {
                        assert(l0.has_existing_postid(new_postids@[q] as int));
                    }
                }
                assert(!local@.arts[i].deleted && local@.arts[i].path == e.path
                    && local@.arts[i].timestamp >= e.timestamp);
                assert(crate::reconcile::covers_entry(local@, e));
            } else {
                let w = choose|w: int|
                    0 <= w < l0.arts.len() && !l0.arts[w].deleted && l0.arts[w].path == e.path;
                assert(arts1[w] == l0.arts[w]);
                if is_changed_local(l0, e) {
                    lv.lemma_filter_contains(chg_pred, k);
                    let q = choose|q: int| 0 <= q < cv.len() && cv[q] == e;
                    // The changed action for this file names this very row.
                    let j = choose|j: int|
                        0 <= j < l0.arts.len() && !l0.arts[j].deleted && l0.arts[j].path
                            == cb[q].path && l0.arts[j].postid == cb[q].postid;
                    assert(j == w);
                    assert(local@.arts[w].postid == cb[q].postid);
                    assert(arts2[w].timestamp == cb[q].timestamp);
                    assert(cb[q].timestamp == e.timestamp);
                    assert forall|kk: int| 0 <= kk < dv.len() implies arts2[w].postid != (
                    #[trigger] dv[kk]).postid by {
                        if arts2[w].postid == dv[kk].postid {
                            let u = choose|u: int|
                                0 <= u < l0.arts.len() && !l0.arts[u].deleted && l0.arts[u].postid
                                    == dv[kk].postid;
                            l0.arts.lemma_filter_contains_rev(del_pred, dv[kk]);
                            let v = choose|v: int| 0 <= v < l0.arts.len() && l0.arts[v] == dv[kk];
                            assert(v == w);
                            assert(listing_paths(lv)[k] == e.path);
                        }
                    }
                    assert(!local@.arts[w].deleted && local@.arts[w].path == e.path
                        && local@.arts[w].timestamp >= e.timestamp);
                    assert(crate::reconcile::covers_entry(local@, e));
                } else {
                    // Unchanged: the original row is at least as new and no
                    // action touches it.
                    assert(!(e.timestamp > l0.arts[w].timestamp));
                    assert forall|kk: int| 0 <= kk < cb.len() implies arts1[w].postid != (
                    #[trigger] cb[kk]).postid by {
                        if arts1[w].postid == cb[kk].postid {
                            let j = choose|j: int|
                                0 <= j < l0.arts.len() && !l0.arts[j].deleted && l0.arts[j].path
                                    == cb[kk].path && l0.arts[j].postid == cb[kk].postid;
                            assert(j == w);
                            // That changed action's file is this file, so
                            // this file would have been classified changed.
                            lv.lemma_filter_contains_rev(chg_pred, cv[kk]);
                            lv.lemma_filter_pred(chg_pred, kk);
                            let kk2 = choose|kk2: int| 0 <= kk2 < lv.len() && lv[kk2] == cv[kk];
                            assert(lv[kk2].path == cb[kk].path && lv[kk2].path == e.path);
                            assert(kk2 == k);
                            assert(is_changed_local(l0, e));
                        }
                    }
                    assert(arts2[w].timestamp == arts1[w].timestamp);
                    assert forall|kk: int| 0 <= kk < dv.len() implies arts2[w].postid != (
                    #[trigger] dv[kk]).postid by {
                        if arts2[w].postid == dv[kk].postid {
                            assert(l0.arts.filter(del_pred).contains(dv[kk]));
                            l0.arts.lemma_filter_contains_rev(del_pred, dv[kk]);
                            let v2 = choose|v2: int| 0 <= v2 < l0.arts.len() && l0.arts[v2]
                                == dv[kk];
                            assert(v2 == w);
                            assert(listing_paths(lv)[k] == e.path);
                        }
                    }
                    assert(!local@.arts[w].deleted && local@.arts[w].path == e.path
                        && local@.arts[w].timestamp >= e.timestamp);
                    assert(crate::reconcile::covers_entry(local@, e));
                }
            }
        }

        assert forall|i: int|
            0 <= i < local@.arts.len() && !(#[trigger] local@.arts[i]).deleted implies
        listing_paths(lv).contains(local@.arts[i].path) by {
            assert(local@.arts[i].path == arts2[i].path && arts2[i].path == arts1[i].path);
            assert(!arts2[i].deleted && !arts1[i].deleted);
            if i < l0.arts.len() {
                assert(arts1[i] == l0.arts[i]);
                if !listing_paths(lv).contains(l0.arts[i].path) {
                    assert(del_pred(l0.arts[i]));
                    l0.arts.lemma_filter_contains(del_pred, i);
                    let q = choose|q: int| 0 <= q < dv.len() && dv[q] == l0.arts[i];
                    assert(!local@.has_existing_postid(dv[q].postid));
                    assert(local@.arts[i].postid == dv[q].postid);
                }
            } else {
                let q = i - l0.arts.len();
                assert(arts1[i] == new_rows(nv, new_postids@)[q]);
                assert(arts1[i].path == nv[q].path);
                lv.lemma_filter_contains_rev(new_pred, nv[q]);
                let w = choose|w: int| 0 <= w < lv.len() && lv[w] == nv[q];
                assert(listing_paths(lv)[w] == nv[q].path);
            }
        }
        assert(forall|i: int|
            0 <= i < local@.arts.len() && !(#[trigger] local@.arts[i]).deleted ==> listing_paths(
                lv,
            ).contains(local@.arts[i].path));
        assert(local_pass_settled(local@, lv));
        lemma_local_apply_rows(l0, lv, new_postids@, cb, arts1, arts2, local@);
    }
}

} // verus!
