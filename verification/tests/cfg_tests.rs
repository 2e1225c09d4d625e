use cnblog_sync::cfg::Config;
use cnblog_sync::orchestrator::{next_phase, Phase};
use cnblog_sync::persist::decode_store;
use cnblog_sync::store::Store;
use cnblog_sync::StoreError;

fn master_row(st: &mut Store, id: i32, ts: i64) {
    // The master record keeps its own row tombstoned, as the original
    // initialization writes it.
    st.new_post("MASTER_CNBLOG_BLOGS_INFO_CFG".to_string(), id, ts);
    st.delete_post(id);
}

#[test]
fn update_check_compares_master_rows() {
    let mut local = Store::new();
    master_row(&mut local, 5, 100);
    let mut mirror = Store::new();
    master_row(&mut mirror, 5, 200);
    let cfg = Config::new(5, local, mirror);
    assert_eq!(cfg.check_blogs_info_update().unwrap(), true);

    let mut local = Store::new();
    master_row(&mut local, 5, 200);
    let mut mirror = Store::new();
    master_row(&mut mirror, 5, 200);
    let cfg = Config::new(5, local, mirror);
    assert_eq!(cfg.check_blogs_info_update().unwrap(), false);

    let mut local = Store::new();
    master_row(&mut local, 5, 300);
    let mut mirror = Store::new();
    master_row(&mut mirror, 5, 200);
    let cfg = Config::new(5, local, mirror);
    assert!(matches!(cfg.check_blogs_info_update(), Err(StoreError::LocalAhead)));

    let cfg = Config::new(5, Store::new(), Store::new());
    assert!(matches!(cfg.check_blogs_info_update(), Err(StoreError::Corrupt)));
}

#[test]
fn overwrite_promotes_mirror() {
    let local = Store::new();
    let mut mirror = Store::new();
    mirror.new_post("a.md".to_string(), 1, 10);
    let cfg = Config::new(5, local, mirror);
    let cfg = cfg.overwrite_local_database();
    let recs = cfg.local().existing_records();
    assert_eq!(recs.len(), 1);
    assert_eq!(recs[0].blog_path, "a.md");
    assert_eq!(cfg.mirror().existing_records().len(), 0);
}

#[test]
fn publish_stamps_and_encodes() {
    let mut local = Store::new();
    master_row(&mut local, 5, 100);
    local.new_post("a.md".to_string(), 1, 10);
    let mut cfg = Config::new(5, local, Store::new());
    let (title, body, category) = cfg.prepare_publish(999).unwrap();
    assert_eq!(title, "[CNBLOG]BLOGS_INFO_CFG");
    assert_eq!(category, "5[CNBLOG]");
    let back = decode_store(body.as_str()).unwrap();
    let tombs = back.tombstoned_records();
    assert_eq!(tombs.len(), 1);
    assert_eq!(tombs[0].timestamp, 999);
    let live = back.existing_records();
    assert_eq!(live.len(), 1);
    assert_eq!(live[0].blog_path, "a.md");
}

#[test]
fn query_surface_is_sorted_by_postid() {
    // The original surfaced these sets in ascending post-id order; stores
    // built in another order must come back sorted.
    let mut local = Store::new();
    local.new_post("bb.md".to_string(), 9, 10);
    local.new_post("a.md".to_string(), 3, 20);
    let mut mirror = Store::new();
    mirror.new_post("nine.md".to_string(), 9, 1);
    mirror.new_post("three.md".to_string(), 3, 1);
    mirror.new_post("seven.md".to_string(), 7, 1);
    let cfg = Config::new(5, Store::new(), mirror);
    let new_ids: Vec<i32> = cfg.get_remote_new_blogs_info().iter().map(|b| b.postid).collect();
    assert_eq!(new_ids, vec![3, 7, 9]);

    let cfg = Config::new(5, local, Store::new());
    assert_eq!(
        cfg.get_local_existed_blogs_path(),
        vec!["a.md".to_string(), "bb.md".to_string()]
    );
    let info_ids: Vec<i32> = cfg.get_local_existed_blogs_info().iter().map(|t| t.1 .1).collect();
    assert_eq!(info_ids, vec![3, 9]);

    let mut local = Store::new();
    local.new_post("x.md".to_string(), 9, 10);
    local.new_post("y.md".to_string(), 3, 10);
    let mut mirror = Store::new();
    mirror.new_post("x.md".to_string(), 9, 10);
    mirror.delete_post(9);
    mirror.new_post("y.md".to_string(), 3, 10);
    mirror.delete_post(3);
    let cfg = Config::new(5, local, mirror);
    let del_ids: Vec<i32> = cfg.get_remote_deleted_blogs_info().iter().map(|b| b.postid).collect();
    assert_eq!(del_ids, vec![3, 9]);
}

#[test]
fn query_surface() {
    let mut local = Store::new();
    local.new_post("a.md".to_string(), 1, 10);
    local.new_post("b.md".to_string(), 2, 20);
    local.delete_post(2);
    local.new_category("cat1".to_string());
    let cfg = Config::new(5, local, Store::new());
    assert_eq!(cfg.get_local_existed_blogs_path(), vec!["a.md".to_string()]);
    let info = cfg.get_local_existed_blogs_info();
    assert_eq!(info.len(), 1);
    assert_eq!(info[0].0, "a.md");
    assert_eq!(info[0].1, (10, 1));
    assert_eq!(cfg.get_local_categories(), vec!["cat1".to_string()]);
    assert!(cfg.has_category(&"cat1".to_string()));
    assert!(!cfg.has_category(&"cat2".to_string()));
}

#[test]
fn phases_run_to_success_and_absorb_failure() {
    let mut p = Phase::Init;
    for _ in 0..5 {
        p = next_phase(p, true);
    }
    assert_eq!(p, Phase::Success);
    assert_eq!(next_phase(p, false), Phase::Success);

    let mut q = Phase::Init;
    q = next_phase(q, true);
    q = next_phase(q, false);
    assert_eq!(q, Phase::Failed);
    assert_eq!(next_phase(q, true), Phase::Failed);
}
