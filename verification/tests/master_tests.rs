use cnblog_sync::master::{
    master_blogs_cfg_key, master_category_name, master_postid_of_title, master_title,
    try_get_master_postid,
};

#[test]
fn category_name_embeds_identifier() {
    assert_eq!(master_category_name(4567), "4567[CNBLOG]");
    assert_eq!(master_category_name(0), "0[CNBLOG]");
}

#[test]
fn fixed_names() {
    assert_eq!(master_title(), "[CNBLOG]BLOGS_INFO_CFG");
    assert_eq!(master_blogs_cfg_key(), "MASTER_CNBLOG_BLOGS_INFO_CFG");
}

#[test]
fn title_parse_accepts_scheme() {
    assert_eq!(master_postid_of_title("[随笔分类]4567[CNBLOG]"), Some(4567));
    assert_eq!(master_postid_of_title("[随笔分类]1[CNBLOG]"), Some(1));
    assert_eq!(master_postid_of_title("[随笔分类]2147483647[CNBLOG]"), Some(2147483647));
}

#[test]
fn title_parse_rejects_everything_else() {
    assert_eq!(master_postid_of_title(""), None);
    assert_eq!(master_postid_of_title("essays"), None);
    assert_eq!(master_postid_of_title("[随笔分类]x7[CNBLOG]"), None);
    assert_eq!(master_postid_of_title("[随笔分类][CNBLOG]"), None);
    assert_eq!(master_postid_of_title("[随笔分类]007[CNBLOG]"), None);
    assert_eq!(master_postid_of_title("[随笔分类]4567[CNBLOG] "), None);
    assert_eq!(master_postid_of_title("[随笔分类]99999999999[CNBLOG]"), None);
}

#[test]
fn scan_finds_first_master_category() {
    let titles = vec![
        "cooking".to_string(),
        "[随笔分类]not-it[CNBLOG]x".to_string(),
        "[随笔分类]31415[CNBLOG]".to_string(),
        "[随笔分类]9[CNBLOG]".to_string(),
    ];
    assert_eq!(try_get_master_postid(&titles), Some(31415));
    let none = vec!["cooking".to_string(), "travel".to_string()];
    assert_eq!(try_get_master_postid(&none), None);
}

#[test]
fn parse_inverts_category_name() {
    // The parse accepts exactly the scheme's own rendering.
    let name = master_category_name(8842);
    let title = format!("[随笔分类]{}", name);
    assert_eq!(master_postid_of_title(&title), Some(8842));
}
