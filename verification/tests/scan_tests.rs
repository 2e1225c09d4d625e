use cnblog_sync::numfmt::{i32_to_string, u32_to_string};
use cnblog_sync::rpc::{format_datetime, DateTime, MetaWeblog};
use cnblog_sync::scan::{
    category_of, file_name_of, is_not_hidden_and_is_markdown, quarantine_dir_name,
    quarantine_file_name, str_ends_with,
};

#[test]
fn filter_hides_dotted_names() {
    assert!(!is_not_hidden_and_is_markdown(".git", true));
    assert!(!is_not_hidden_and_is_markdown(".hidden.md", false));
    assert!(is_not_hidden_and_is_markdown("notes", true));
}

#[test]
fn filter_takes_markdown_files_only() {
    assert!(is_not_hidden_and_is_markdown("a.md", false));
    assert!(is_not_hidden_and_is_markdown("b.markdown", false));
    assert!(is_not_hidden_and_is_markdown("tar.gz.md", false));
    assert!(!is_not_hidden_and_is_markdown("a.txt", false));
    assert!(!is_not_hidden_and_is_markdown("md", false));
    assert!(!is_not_hidden_and_is_markdown("a.MD", false));
    assert!(!is_not_hidden_and_is_markdown("a.md.txt", false));
}

#[test]
fn suffix_check() {
    assert!(str_ends_with("hello.md", ".md"));
    assert!(!str_ends_with("hello.md", ".markdown"));
    assert!(str_ends_with("", ""));
}

#[test]
fn category_and_file_name_derivation() {
    assert_eq!(category_of("cat1/note.md", "articles"), "cat1");
    assert_eq!(category_of("a/b/c.md", "articles"), "b");
    assert_eq!(category_of("note.md", "articles"), "articles");
    assert_eq!(file_name_of("cat1/note.md"), "note.md");
    assert_eq!(file_name_of("note.md"), "note.md");
}

#[test]
fn quarantine_names() {
    assert_eq!(quarantine_file_name(16, "b.md"), "16b.md");
    assert_eq!(quarantine_dir_name(), ".cnblog_deleted");
}

#[test]
fn decimal_rendering() {
    assert_eq!(u32_to_string(0), "0");
    assert_eq!(u32_to_string(4294967295), "4294967295");
    assert_eq!(i32_to_string(-250), "-250");
    assert_eq!(i32_to_string(i32::MIN), "-2147483648");
}

#[test]
fn datetime_rendering() {
    let dt = DateTime { year: 2022, month: 2, day: 10, hour: 16, minute: 7, second: 5 };
    assert_eq!(format_datetime(&dt), "2022-02-10T16:07:05");
}

#[test]
fn client_identity() {
    let w = MetaWeblog::new("alice".to_string(), "pw".to_string(), "123".to_string());
    assert_eq!(w.url().as_str(), "https://rpc.cnblogs.com/metaweblog/alice");
    assert_eq!(w.username().as_str(), "alice");
    assert_eq!(w.app_key().as_str(), "alice");
    assert_eq!(w.blogid().as_str(), "123");
}
