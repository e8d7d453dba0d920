use prreview::types::{CommentResponse, FileStatus, PrRef, ReviewComment};

fn pr_ref(owner: &str, repo: &str, number: u64) -> PrRef {
    PrRef { owner: owner.to_string(), repo: repo.to_string(), number }
}

#[test]
fn url_of_reference() {
    assert_eq!(pr_ref("acme", "widgets", 42).url(), "https://github.com/acme/widgets/pull/42");
}

#[test]
fn url_number_edges() {
    assert_eq!(pr_ref("o", "r", 0).url(), "https://github.com/o/r/pull/0");
    assert_eq!(pr_ref("o", "r", 10).url(), "https://github.com/o/r/pull/10");
    assert_eq!(
        pr_ref("o", "r", u64::MAX).url(),
        "https://github.com/o/r/pull/18446744073709551615"
    );
}

#[test]
fn status_words() {
    assert_eq!(FileStatus::from("added"), FileStatus::Added);
    assert_eq!(FileStatus::from("removed"), FileStatus::Deleted);
    assert_eq!(FileStatus::from("deleted"), FileStatus::Deleted);
    assert_eq!(FileStatus::from("renamed"), FileStatus::Renamed);
    assert_eq!(FileStatus::from("modified"), FileStatus::Modified);
}

#[test]
fn status_words_ignore_case() {
    assert_eq!(FileStatus::from("ADDED"), FileStatus::Added);
    assert_eq!(FileStatus::from("Removed"), FileStatus::Deleted);
    assert_eq!(FileStatus::from("ReNamed"), FileStatus::Renamed);
}

#[test]
fn unknown_status_is_modified() {
    assert_eq!(FileStatus::from("copied"), FileStatus::Modified);
    assert_eq!(FileStatus::from("changed"), FileStatus::Modified);
    assert_eq!(FileStatus::from(""), FileStatus::Modified);
}

#[test]
fn from_lowercase_is_exact() {
    assert_eq!(FileStatus::from_lowercase(&"added".to_string()), FileStatus::Added);
    assert_eq!(FileStatus::from_lowercase(&"ADDED".to_string()), FileStatus::Modified);
}

#[test]
fn envelopes() {
    let c = ReviewComment {
        id: 7,
        path: "a.rs".to_string(),
        line: Some(3),
        side: "RIGHT".to_string(),
        body: "nit".to_string(),
        author: "bob".to_string(),
        created_at: "2024-01-01T00:00:00Z".to_string(),
        html_url: "https://example.com/c/7".to_string(),
    };
    let ok = CommentResponse::created(c);
    assert!(ok.success);
    assert_eq!(ok.comment_id, Some(7));
    assert_eq!(ok.html_url.as_deref(), Some("https://example.com/c/7"));
    assert_eq!(ok.error, None);
    let bad = CommentResponse::failed("boom".to_string());
    assert!(!bad.success);
    assert_eq!(bad.comment_id, None);
    assert_eq!(bad.html_url, None);
    assert_eq!(bad.error.as_deref(), Some("boom"));
}

#[test]
fn parse_reference() {
    let r = PrRef::parse("https://github.com/acme/widgets/pull/42").expect("valid url");
    assert_eq!(r.owner, "acme");
    assert_eq!(r.repo, "widgets");
    assert_eq!(r.number, 42);
    assert_eq!(r.url(), "https://github.com/acme/widgets/pull/42");
}

#[test]
fn parse_reference_limits() {
    let r = PrRef::parse("https://github.com/o/r/pull/18446744073709551615").expect("valid url");
    assert_eq!(r.number, u64::MAX);
    assert!(PrRef::parse("https://github.com/o/r/pull/18446744073709551616").is_none());
}

#[test]
fn reject_malformed_references() {
    assert!(PrRef::parse("").is_none());
    assert!(PrRef::parse("https://github.com/acme/widgets").is_none());
    assert!(PrRef::parse("https://github.com/acme/widgets/pull/").is_none());
    assert!(PrRef::parse("https://github.com/acme/widgets/pull/4x2").is_none());
    assert!(PrRef::parse("https://github.com//widgets/pull/42").is_none());
    assert!(PrRef::parse("https://github.com/acme/widgets/issues/42").is_none());
    assert!(PrRef::parse("https://gitlab.com/acme/widgets/pull/42").is_none());
    assert!(PrRef::parse("https://github.com/acme/widgets/pull/42/files").is_none());
}

#[test]
fn url_reads_back() {
    for (owner, repo, number) in [("acme", "widgets", 42u64), ("a-b", "c.d_e", 0), ("x", "y", 1234567890123)] {
        let r = pr_ref(owner, repo, number);
        let back = PrRef::parse(&r.url()).expect("own url parses");
        assert_eq!(back.owner, owner);
        assert_eq!(back.repo, repo);
        assert_eq!(back.number, number);
    }
}
