use advisory_db::classify::{extract_git_commits, extract_pull_requests};

fn one(url: &str) -> Option<Vec<String>> {
    Some(vec![url.to_string()])
}

#[test]
fn commit_with_seven_hex_digits_is_kept_whole() {
    let url = "https://example.com/repo/commit/abc1234";
    assert_eq!(extract_git_commits(url), one(url));
}

#[test]
fn commit_with_non_hex_text_is_no_commit() {
    assert_eq!(extract_git_commits("https://example.com/repo/commit/zz"), None);
}

#[test]
fn commit_with_forty_one_hex_digits_is_no_commit() {
    let url = format!("https://example.com/repo/commits/{}", "a".repeat(41));
    assert_eq!(extract_git_commits(&url), None);
}

#[test]
fn commit_with_forty_hex_digits_is_a_commit() {
    let url = format!("https://example.com/repo/commits/{}", "0123456789abcdefABCD".repeat(2));
    assert_eq!(extract_git_commits(&url), one(&url));
}

#[test]
fn commit_with_six_hex_digits_is_no_commit() {
    assert_eq!(extract_git_commits("https://example.com/repo/commit/abc123"), None);
}

#[test]
fn commit_hash_ends_at_the_first_other_character() {
    let kept = "https://example.com/repo/commit/abc1234#diff";
    assert_eq!(extract_git_commits(kept), one(kept));
    let kept = "https://example.com/repo/commit/abc1234.patch";
    assert_eq!(extract_git_commits(kept), one(kept));
    assert_eq!(extract_git_commits("https://example.com/repo/commit/abc12x4567890"), None);
}

#[test]
fn commit_needs_a_slash_behind_the_marker() {
    assert_eq!(extract_git_commits("https://example.com/repo/committed/abc1234"), None);
    assert_eq!(extract_git_commits("https://example.com/repo/commitabc1234"), None);
    assert_eq!(extract_git_commits("https://example.com/repo/commit"), None);
    assert_eq!(extract_git_commits("https://example.com/repo/commits"), None);
    assert_eq!(extract_git_commits(""), None);
}

#[test]
fn only_the_first_commit_marker_counts() {
    assert_eq!(
        extract_git_commits("https://example.com/commit/zz/commit/abc1234"),
        None
    );
    let url = "https://example.com/commit/abc1234/commit/zz";
    assert_eq!(extract_git_commits(url), one(url));
}

#[test]
fn pull_url_is_never_a_commit() {
    assert_eq!(
        extract_git_commits("https://example.com/repo/pull/42/commits/abc1234"),
        None
    );
    assert_eq!(
        extract_git_commits("https://example.com/repo/commit/abc1234/pull/"),
        None
    );
    assert_eq!(
        extract_git_commits("https://example.com/pull/repo/commit/abc1234def"),
        None
    );
}

#[test]
fn pulls_without_a_pull_segment_can_be_a_commit() {
    let url = "https://example.com/pulls/commit/abc1234";
    assert_eq!(extract_git_commits(url), one(url));
}

#[test]
fn pull_request_commit_page_is_cut_to_the_pull_request() {
    let url = "https://example.com/repo/pull/42/commits/abc1234";
    assert_eq!(extract_pull_requests(url), one("https://example.com/repo/pull/42"));
    assert_eq!(extract_git_commits(url), None);
}

#[test]
fn pull_request_files_page_is_cut_to_the_pull_request() {
    let url = "https://example.com/repo/pull/7/files";
    assert_eq!(extract_pull_requests(url), one("https://example.com/repo/pull/7"));
}

#[test]
fn plain_pull_request_is_kept_whole() {
    let url = "https://example.com/repo/pull/42";
    assert_eq!(extract_pull_requests(url), one(url));
    let url = "https://example.com/repo/pulls/42#issuecomment-1";
    assert_eq!(extract_pull_requests(url), one(url));
}

#[test]
fn pull_request_needs_a_number() {
    assert_eq!(extract_pull_requests("https://example.com/repo/pull/"), None);
    assert_eq!(extract_pull_requests("https://example.com/repo/pull/abc"), None);
    assert_eq!(extract_pull_requests("https://example.com/repo/pull"), None);
    assert_eq!(extract_pull_requests("https://example.com/repo/pullrequest/42"), None);
    assert_eq!(extract_pull_requests("https://example.com/repo/issues/42"), None);
    assert_eq!(extract_pull_requests(""), None);
}

#[test]
fn only_the_first_pull_marker_counts() {
    assert_eq!(extract_pull_requests("https://example.com/pull/x/pull/42"), None);
}

#[test]
fn commits_cut_comes_before_files_cut() {
    assert_eq!(
        extract_pull_requests("https://example.com/repo/pull/42/files/commits/abc"),
        one("https://example.com/repo/pull/42/files")
    );
    assert_eq!(
        extract_pull_requests("https://example.com/repo/pull/42/commits/abc/files"),
        one("https://example.com/repo/pull/42")
    );
}

#[test]
fn pull_request_is_cut_only_behind_its_number() {
    let url = "https://example.com/files/repo/pull/42";
    assert_eq!(extract_pull_requests(url), one(url));
    assert_eq!(
        extract_pull_requests("https://example.com/commits/repo/pull/42/files"),
        one("https://example.com/commits/repo/pull/42")
    );
}

#[test]
fn characters_beyond_ascii_are_counted_as_characters() {
    let url = "https://example.com/r\u{e9}po/pull/42/files";
    assert_eq!(
        extract_pull_requests(url),
        one("https://example.com/r\u{e9}po/pull/42")
    );
    let url = "https://example.com/\u{65e5}\u{672c}/commit/abcdef0123";
    assert_eq!(extract_git_commits(url), one(url));
}
