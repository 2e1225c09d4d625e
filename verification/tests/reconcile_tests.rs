use cnblog_sync::apply::{apply_local_origin, apply_remote_origin};
use cnblog_sync::reconcile::{
    get_remote_changed_blogs_info, get_remote_deleted_blogs_info, get_remote_new_blogs_info,
    local_origin_actions, FileEntry,
};
use cnblog_sync::store::Store;

fn store_with(rows: &[(&str, i32, i64, bool)], cats: &[&str]) -> Store {
    let mut st = Store::new();
    for (path, id, ts, deleted) in rows {
        if *deleted {
            // Insert live, then tombstone, as a run would.
            st.new_post(path.to_string(), *id, *ts);
            st.delete_post(*id);
        } else {
            st.new_post(path.to_string(), *id, *ts);
        }
    }
    for c in cats {
        st.new_category(c.to_string());
    }
    st
}

#[test]
fn changed_remote_scenario() {
    // Mirror has (a/b.md, 7, 200); local has (a/b.md, 7, 100): the record is
    // classified changed-remote, and after the pass the local timestamp is 200.
    let mut local = store_with(&[("a/b.md", 7, 100, false)], &[]);
    let mirror = store_with(&[("a/b.md", 7, 200, false)], &[]);

    let changed = get_remote_changed_blogs_info(&local, &mirror);
    assert_eq!(changed.len(), 1);
    assert_eq!(changed[0].blog_path, "a/b.md");
    assert_eq!(changed[0].postid, 7);
    assert_eq!(changed[0].timestamp, 200);

    assert_eq!(get_remote_new_blogs_info(&local, &mirror).len(), 0);
    assert_eq!(get_remote_deleted_blogs_info(&local, &mirror).len(), 0);

    apply_remote_origin(&mut local, &mirror);
    let recs = local.existing_records();
    assert_eq!(recs.len(), 1);
    assert_eq!(recs[0].blog_path, "a/b.md");
    assert_eq!(recs[0].timestamp, 200);
}

#[test]
fn remote_tie_is_not_changed() {
    // Equal timestamps mean unchanged; one second newer means changed.
    let local = store_with(&[("a/b.md", 7, 200, false)], &[]);
    let mirror_equal = store_with(&[("a/b.md", 7, 200, false)], &[]);
    assert_eq!(get_remote_changed_blogs_info(&local, &mirror_equal).len(), 0);
    let mirror_newer = store_with(&[("a/b.md", 7, 201, false)], &[]);
    assert_eq!(get_remote_changed_blogs_info(&local, &mirror_newer).len(), 1);
}

#[test]
fn timestamp_tie_break_local() {
    // A file whose mtime equals the stored timestamp is never classified
    // changed; one greater by one second always is.
    let local = store_with(&[("x/y.md", 3, 500, false)], &[]);
    let equal = vec![FileEntry { path: "x/y.md".to_string(), timestamp: 500 }];
    let acts = local_origin_actions(&local, &equal);
    assert_eq!(acts.new_blogs.len(), 0);
    assert_eq!(acts.changed_blogs.len(), 0);
    assert_eq!(acts.deleted_blogs.len(), 0);

    let newer = vec![FileEntry { path: "x/y.md".to_string(), timestamp: 501 }];
    let acts = local_origin_actions(&local, &newer);
    assert_eq!(acts.changed_blogs.len(), 1);
    assert_eq!(acts.changed_blogs[0].postid, 3);
    assert_eq!(acts.changed_blogs[0].timestamp, 501);
}

#[test]
fn new_local_scenario() {
    // An empty local store and a root holding cat1/note.md: the file is a
    // new local article; its category derives from its parent directory,
    // and after the pass the store records it under the returned identifier.
    let mut local = Store::new();
    let listing = vec![FileEntry { path: "cat1/note.md".to_string(), timestamp: 42 }];
    let acts = local_origin_actions(&local, &listing);
    assert_eq!(acts.new_blogs.len(), 1);
    assert_eq!(acts.new_blogs[0].path, "cat1/note.md");
    assert_eq!(acts.changed_blogs.len(), 0);
    assert_eq!(acts.deleted_blogs.len(), 0);

    let category = cnblog_sync::scan::category_of("cat1/note.md", "articles");
    assert_eq!(category, "cat1");
    assert!(!local.has_category(&category));
    local.new_category(category.clone());
    assert!(local.has_category(&category));

    let title = cnblog_sync::scan::file_name_of("cat1/note.md");
    assert_eq!(title, "note.md");
    let now = cnblog_sync::rpc::DateTime { year: 2024, month: 5, day: 6, hour: 7, minute: 8, second: 9 };
    let post = cnblog_sync::rpc::build_new_post("hello".to_string(), category.clone(), title, now);
    assert_eq!(post.description, "hello");
    assert!(post.categories.iter().any(|c| c.as_str() == "cat1"));
    assert!(post.categories.iter().any(|c| c.as_str() == "[Markdown]"));

    // The remote service answered with identifier 99.
    let ids = vec![99];
    apply_local_origin(&mut local, &listing, &ids);
    let recs = local.existing_records();
    assert_eq!(recs.len(), 1);
    assert_eq!(recs[0].blog_path, "cat1/note.md");
    assert_eq!(recs[0].postid, 99);
    assert_eq!(recs[0].timestamp, 42);
}

#[test]
fn deleted_local_scenario() {
    // Local store has (x/y.md, 9, 50) but the file is gone: the record is a
    // deleted local article, and after the pass it is tombstoned.
    let mut local = store_with(&[("x/y.md", 9, 50, false)], &[]);
    let listing: Vec<FileEntry> = Vec::new();
    let acts = local_origin_actions(&local, &listing);
    assert_eq!(acts.deleted_blogs.len(), 1);
    assert_eq!(acts.deleted_blogs[0].postid, 9);

    let ids: Vec<i32> = Vec::new();
    apply_local_origin(&mut local, &listing, &ids);
    assert_eq!(local.existing_records().len(), 0);
    let tombs = local.tombstoned_records();
    assert_eq!(tombs.len(), 1);
    assert_eq!(tombs[0].postid, 9);
    assert_eq!(tombs[0].blog_path, "x/y.md");
}

#[test]
fn deleted_remote_scenario() {
    // A mirror tombstone for a post the local store still holds live calls
    // for a remote delete and a local tombstone.
    let mut local = store_with(&[("a.md", 1, 10, false), ("b.md", 2, 20, false)], &[]);
    let mirror = store_with(&[("a.md", 1, 10, true), ("b.md", 2, 20, false)], &[]);
    let deleted = get_remote_deleted_blogs_info(&local, &mirror);
    assert_eq!(deleted.len(), 1);
    assert_eq!(deleted[0].postid, 1);

    apply_remote_origin(&mut local, &mirror);
    let live = local.existing_records();
    assert_eq!(live.len(), 1);
    assert_eq!(live[0].postid, 2);
}

#[test]
fn duplicate_tombstones_yield_one_delete_action() {
    // Two mirror tombstones for one post call for a single deleted-remote
    // action, carried by the first tombstone.
    let mut local = Store::new();
    local.new_post("x.md".to_string(), 4, 10);
    let mut mirror = Store::new();
    mirror.new_post("x.md".to_string(), 4, 10);
    mirror.delete_post(4);
    mirror.new_post("x-moved.md".to_string(), 4, 20);
    mirror.delete_post(4);
    let deleted = get_remote_deleted_blogs_info(&local, &mirror);
    assert_eq!(deleted.len(), 1);
    assert_eq!(deleted[0].postid, 4);
    assert_eq!(deleted[0].blog_path, "x.md");

    apply_remote_origin(&mut local, &mirror);
    assert_eq!(local.existing_records().len(), 0);
}

#[test]
fn reconciliation_is_idempotent() {
    // After one full pass with no intervening change, every action set of a
    // second pass is empty.
    let mut local = store_with(
        &[("a.md", 1, 10, false), ("b.md", 2, 20, false), ("gone.md", 9, 5, false)],
        &[],
    );
    let mirror = store_with(
        &[("a.md", 1, 15, false), ("c.md", 3, 30, false), ("gone.md", 9, 5, true)],
        &[],
    );
    apply_remote_origin(&mut local, &mirror);
    assert_eq!(get_remote_new_blogs_info(&local, &mirror).len(), 0);
    assert_eq!(get_remote_changed_blogs_info(&local, &mirror).len(), 0);
    assert_eq!(get_remote_deleted_blogs_info(&local, &mirror).len(), 0);

    let listing = vec![
        FileEntry { path: "a.md".to_string(), timestamp: 15 },
        FileEntry { path: "b.md".to_string(), timestamp: 25 },
        FileEntry { path: "c.md".to_string(), timestamp: 30 },
        FileEntry { path: "fresh.md".to_string(), timestamp: 7 },
    ];
    let acts = local_origin_actions(&local, &listing);
    assert_eq!(acts.new_blogs.len(), 1);
    assert_eq!(acts.changed_blogs.len(), 1);
    let ids = vec![77];
    apply_local_origin(&mut local, &listing, &ids);

    let again = local_origin_actions(&local, &listing);
    assert_eq!(again.new_blogs.len(), 0);
    assert_eq!(again.changed_blogs.len(), 0);
    assert_eq!(again.deleted_blogs.len(), 0);
}
