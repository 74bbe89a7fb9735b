use blog::{
    file_extension, has_extension, log_level, should_copy_file, with_extension, Destination, LogLevel,
};

#[test]
fn extension_of_file_names() {
    assert_eq!(file_extension("file1.txt"), Some("txt".to_string()));
    assert_eq!(file_extension("archive.tar.gz"), Some("gz".to_string()));
    assert_eq!(file_extension("x."), Some("".to_string()));
    assert_eq!(file_extension("README"), None);
    assert_eq!(file_extension(".bashrc"), None);
    assert_eq!(file_extension(".hidden.md"), Some("md".to_string()));
    assert_eq!(file_extension(".."), None);
    assert_eq!(file_extension("."), None);
    assert_eq!(file_extension(""), None);
}

#[test]
fn posts_are_picked_by_extension() {
    assert!(has_extension("GRTTy.md", "md"));
    assert!(!has_extension("GRTTy.md", "txt"));
    assert!(!has_extension("md", "md"));
    assert!(!has_extension(".md", "md"));
    assert!(has_extension("file1.txt", "txt"));
}

#[test]
fn page_names_take_the_html_extension() {
    assert_eq!(with_extension("file1.txt", "html"), "file1.html");
    assert_eq!(with_extension("GRTTy.md", "html"), "GRTTy.html");
    assert_eq!(with_extension("archive.tar.gz", "html"), "archive.tar.html");
    assert_eq!(with_extension("README", "html"), "README.html");
    assert_eq!(with_extension(".bashrc", "html"), ".bashrc.html");
    assert_eq!(with_extension("x.", "html"), "x.html");
    assert_eq!(with_extension("post.md", ""), "post");
    assert_eq!(with_extension("..", "html"), "..");
    assert_eq!(with_extension("", "html"), "");
}

#[test]
fn giving_the_same_extension_twice_is_giving_it_once() {
    for name in ["a.md", "README", ".bashrc", "x.", "a.b.c"] {
        let once = with_extension(name, "html");
        assert_eq!(with_extension(&once, "html"), once);
        assert_eq!(file_extension(&once), Some("html".to_string()));
    }
}

#[test]
fn copies_when_destination_missing_or_older() {
    let now: i128 = 1_700_000_000_000_000_000;
    let hour: i128 = 3_600_000_000_000;
    let found = |t: i128| Destination::<String>::Found(Ok(t));
    assert_eq!(should_copy_file(Ok(now), found(now - hour)), Ok(true));
    assert_eq!(should_copy_file(Ok(now), found(now + hour)), Ok(false));
    assert_eq!(should_copy_file(Ok(now), found(now)), Ok(false));
    assert_eq!(should_copy_file(Ok(now), Destination::<String>::Missing), Ok(true));
    assert_eq!(should_copy_file(Ok(-5), Destination::<String>::Missing), Ok(true));
}

#[test]
fn metadata_errors_are_reported() {
    let src_err: Result<i128, String> = Err("src".to_string());
    // A missing copy is copied without looking at the source.
    assert_eq!(should_copy_file(src_err.clone(), Destination::Missing), Ok(true));
    assert_eq!(
        should_copy_file(Ok(1), Destination::Unreadable("dst".to_string())),
        Err("dst".to_string())
    );
    assert_eq!(should_copy_file(src_err.clone(), Destination::Found(Ok(0))), Err("src".to_string()));
    assert_eq!(
        should_copy_file(src_err, Destination::Found(Err("dst time".to_string()))),
        Err("src".to_string())
    );
    assert_eq!(
        should_copy_file(Ok(1), Destination::Found(Err("dst time".to_string()))),
        Err("dst time".to_string())
    );
}

#[test]
fn verbosity_to_log_level() {
    assert_eq!(log_level(0), LogLevel::Info);
    assert_eq!(log_level(1), LogLevel::Debug);
    assert_eq!(log_level(2), LogLevel::Trace);
    assert_eq!(log_level(255), LogLevel::Trace);
}
