use blog::{get_header, HeaderError};

const POST: &str = "+++\ntitle = \"GRTTy Stack\"\ndate = 2025-02-27\n+++\n\n> **{{title}}**\n";

#[test]
fn splits_front_matter_and_body() {
    let (front, body) = get_header(POST).unwrap();
    assert_eq!(front, "\ntitle = \"GRTTy Stack\"\ndate = 2025-02-27\n");
    assert_eq!(body, "\n\n> **{{title}}**\n");
}

#[test]
fn text_before_the_first_fence_is_dropped() {
    let (front, body) = get_header("intro +++a = 1+++rest").unwrap();
    assert_eq!(front, "a = 1");
    assert_eq!(body, "rest");
}

#[test]
fn later_fences_belong_to_the_body() {
    let (front, body) = get_header("+++x+++ body +++ more").unwrap();
    assert_eq!(front, "x");
    assert_eq!(body, " body +++ more");
}

#[test]
fn four_pluses_open_and_close_at_the_first_three() {
    // "++++" opens at 0; the closing fence is searched from position 3.
    let (front, body) = get_header("++++++").unwrap();
    assert_eq!(front, "");
    assert_eq!(body, "");
    let (front, body) = get_header("++++b+++c").unwrap();
    assert_eq!(front, "+b");
    assert_eq!(body, "c");
}

#[test]
fn empty_front_matter() {
    let (front, body) = get_header("++++++body").unwrap();
    assert_eq!(front, "");
    assert_eq!(body, "body");
}

#[test]
fn missing_start_fence() {
    assert_eq!(get_header("no front matter here").unwrap_err(), HeaderError::StartDelimiterNotFound);
    assert_eq!(get_header("").unwrap_err(), HeaderError::StartDelimiterNotFound);
    assert_eq!(get_header("++ +").unwrap_err(), HeaderError::StartDelimiterNotFound);
}

#[test]
fn missing_end_fence() {
    assert_eq!(get_header("+++title = 1\n").unwrap_err(), HeaderError::EndDelimiterNotFound);
    assert_eq!(get_header("+++++").unwrap_err(), HeaderError::EndDelimiterNotFound);
}

#[test]
fn error_messages() {
    assert_eq!(HeaderError::StartDelimiterNotFound.message(), "start delimiter +++ not found");
    assert_eq!(HeaderError::EndDelimiterNotFound.message(), "end delimiter +++ not found");
}

#[test]
fn non_ascii_text_is_kept_whole() {
    let (front, body) = get_header("ü+++ä = \"ß\"+++黑风雷").unwrap();
    assert_eq!(front, "ä = \"ß\"");
    assert_eq!(body, "黑风雷");
}

#[test]
fn split_of_assembled_post_gives_back_its_parts() {
    let pre = "draft notes";
    let front = "title = \"x\"\n";
    let body = "body with +++ inside";
    let post = format!("{}+++{}+++{}", pre, front, body);
    let (f, b) = get_header(&post).unwrap();
    assert_eq!(f, front);
    assert_eq!(b, body);
}

#[test]
fn split_post_reassembles() {
    let post = "intro +++ fm +++ body +++ tail";
    let (f, b) = get_header(post).unwrap();
    assert_eq!(format!("intro +++{}+++{}", f, b), post);
}

#[test]
fn prefix_ending_in_plus_shifts_the_fence() {
    // The prefix is not fence-free: its last '+' starts the opening fence.
    let (f, b) = get_header("notes ++++x+++y").unwrap();
    assert_eq!(f, "+x");
    assert_eq!(b, "y");
}
