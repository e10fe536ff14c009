use review_radar::{
    classify, collect_fetched, enumerate_repos, filter_repos, plan_repositories,
    report_pull_requests, ConfigError, FetchOutcome, GhPullRequest, GhRepo, GhUser, ListOutcome,
    OrgListing, RepoFetch, SearchMode, SkipReason,
};

fn repo(org: &str, name: &str) -> GhRepo {
    GhRepo {
        name: name.to_string(),
        org: org.to_string(),
    }
}

fn pr(number: u32, title: &str, url: &str, author: &str, reviewers: &[&str]) -> GhPullRequest {
    GhPullRequest {
        number,
        title: title.to_string(),
        url: url.to_string(),
        author: GhUser {
            login: author.to_string(),
        },
        review_requests: reviewers
            .iter()
            .map(|r| GhUser {
                login: r.to_string(),
            })
            .collect(),
    }
}

#[test]
fn test_enumerate_tags_and_concatenates_in_order() {
    let listings = vec![
        OrgListing {
            org: "one".to_string(),
            outcome: ListOutcome::Listed(vec!["r1".to_string(), "r2".to_string()]),
        },
        OrgListing {
            org: "two".to_string(),
            outcome: ListOutcome::Listed(vec!["r3".to_string()]),
        },
    ];
    let repos = enumerate_repos(listings);
    assert_eq!(
        repos,
        vec![repo("one", "r1"), repo("one", "r2"), repo("two", "r3")]
    );
}

#[test]
fn test_enumerate_skips_failed_org() {
    // The listing for organization B fails; A's and C's repositories survive.
    let listings = vec![
        OrgListing {
            org: "A".to_string(),
            outcome: ListOutcome::Listed(vec!["a1".to_string()]),
        },
        OrgListing {
            org: "B".to_string(),
            outcome: ListOutcome::Skipped(SkipReason::ToolFailure),
        },
        OrgListing {
            org: "C".to_string(),
            outcome: ListOutcome::Listed(vec!["c1".to_string(), "c2".to_string()]),
        },
    ];
    let repos = enumerate_repos(listings);
    assert_eq!(
        repos,
        vec![repo("A", "a1"), repo("C", "c1"), repo("C", "c2")]
    );
}

#[test]
fn test_enumerate_skips_malformed_payload() {
    let listings = vec![OrgListing {
        org: "A".to_string(),
        outcome: ListOutcome::Skipped(SkipReason::MalformedPayload),
    }];
    assert_eq!(enumerate_repos(listings), vec![]);
}

#[test]
fn test_filter_without_pattern_returns_input_unchanged() {
    let repos = vec![repo("o", "svc-a"), repo("o", "svc-b")];
    let out = filter_repos(repos.clone(), None).unwrap();
    assert_eq!(out, repos);
}

#[test]
fn test_filter_keeps_exactly_matching_names() {
    let repos = vec![
        repo("o", "backend-api"),
        repo("o", "frontend"),
        repo("o", "backend-worker"),
    ];
    let out = filter_repos(repos, Some("backend-.*")).unwrap();
    assert_eq!(out, vec![repo("o", "backend-api"), repo("o", "backend-worker")]);
}

#[test]
fn test_filter_match_is_unanchored_substring() {
    let repos = vec![repo("o", "my-svc-x"), repo("o", "other")];
    let out = filter_repos(repos, Some("svc")).unwrap();
    assert_eq!(out, vec![repo("o", "my-svc-x")]);
}

#[test]
fn test_filter_invalid_pattern_reports_error() {
    let repos = vec![repo("o", "svc-a")];
    let out = filter_repos(repos, Some("[invalid"));
    assert_eq!(out, Err(ConfigError::InvalidPattern));
}

#[test]
fn test_filter_twice_equals_filter_once() {
    let repos = vec![
        repo("o", "svc-a"),
        repo("o", "lib-b"),
        repo("o", "svc-c"),
    ];
    let once = filter_repos(repos.clone(), Some("svc-.*")).unwrap();
    let twice = filter_repos(once.clone(), Some("svc-.*")).unwrap();
    assert_eq!(twice, once);
}

#[test]
fn test_collect_fetched_concatenates_and_skips() {
    let fetches = vec![
        RepoFetch {
            org: "o".to_string(),
            name: "a".to_string(),
            outcome: FetchOutcome::Fetched(vec![pr(1, "t1", "u1", "x", &[])]),
        },
        RepoFetch {
            org: "o".to_string(),
            name: "b".to_string(),
            outcome: FetchOutcome::Skipped(SkipReason::MalformedPayload),
        },
        RepoFetch {
            org: "o".to_string(),
            name: "c".to_string(),
            outcome: FetchOutcome::Fetched(vec![pr(2, "t2", "u2", "y", &["z"])]),
        },
    ];
    let raw = collect_fetched(fetches);
    assert_eq!(raw.len(), 2);
    assert_eq!(raw[0].number, 1);
    assert_eq!(raw[1].number, 2);
}

#[test]
fn test_classify_own_mode_keeps_every_record() {
    // Own mode is the identity on the fetched records.
    let raw = vec![
        pr(1, "first", "url1", "alice", &[]),
        pr(2, "second", "url2", "alice", &["bob"]),
    ];
    let out = classify(raw.clone(), SearchMode::Own, "alice");
    assert_eq!(out.len(), 2);
    for (row, record) in out.iter().zip(raw.iter()) {
        assert_eq!(row.number, record.number);
        assert_eq!(row.title, record.title);
        assert_eq!(row.html_url, record.url);
        assert_eq!(row.user.login, record.author.login);
    }
}

#[test]
fn test_classify_review_requested_keeps_exact_subset_in_order() {
    let raw = vec![
        pr(1, "a", "u1", "bob", &["alice", "carol"]),
        pr(2, "b", "u2", "bob", &["carol"]),
        pr(3, "c", "u3", "dave", &["alice"]),
        pr(4, "d", "u4", "dave", &[]),
    ];
    let out = classify(raw, SearchMode::ReviewRequested, "alice");
    let numbers: Vec<u32> = out.iter().map(|r| r.number).collect();
    assert_eq!(numbers, vec![1, 3]);
}

#[test]
fn test_classify_review_match_is_case_sensitive() {
    let raw = vec![pr(1, "a", "u1", "bob", &["Alice"])];
    let out = classify(raw, SearchMode::ReviewRequested, "alice");
    assert!(out.is_empty());
}

#[test]
fn test_filter_empty_input() {
    let out = filter_repos(Vec::new(), Some("svc-.*")).unwrap();
    assert!(out.is_empty());
}

#[test]
fn test_classify_empty_input() {
    assert!(classify(Vec::new(), SearchMode::ReviewRequested, "alice").is_empty());
    assert!(classify(Vec::new(), SearchMode::Own, "alice").is_empty());
}

#[test]
fn test_enumerate_empty_listings() {
    assert!(enumerate_repos(Vec::new()).is_empty());
}

#[test]
fn test_review_request_scenario() {
    // Organization acme has svc-a and svc-b; only svc-a's PR asks alice.
    let listings = vec![OrgListing {
        org: "acme".to_string(),
        outcome: ListOutcome::Listed(vec!["svc-a".to_string(), "svc-b".to_string()]),
    }];
    let repos = plan_repositories(listings, None).unwrap();
    assert_eq!(repos, vec![repo("acme", "svc-a"), repo("acme", "svc-b")]);

    let fetches = vec![
        RepoFetch {
            org: "acme".to_string(),
            name: "svc-a".to_string(),
            outcome: FetchOutcome::Fetched(vec![pr(
                7,
                "Fix bug",
                "https://example.test/acme/svc-a/7",
                "bob",
                &["alice"],
            )]),
        },
        RepoFetch {
            org: "acme".to_string(),
            name: "svc-b".to_string(),
            outcome: FetchOutcome::Fetched(vec![pr(
                3,
                "Other",
                "https://example.test/acme/svc-b/3",
                "carol",
                &[],
            )]),
        },
    ];
    let out = report_pull_requests(fetches, SearchMode::ReviewRequested, "alice");
    assert_eq!(out.len(), 1);
    assert_eq!(out[0].number, 7);
    assert_eq!(out[0].title, "Fix bug");
    assert_eq!(out[0].user.login, "bob");
}

#[test]
fn test_review_request_scenario_with_pattern() {
    // Same setup, but the pattern narrows the run to svc-b, whose only PR
    // asks nobody: the output is empty.
    let listings = vec![OrgListing {
        org: "acme".to_string(),
        outcome: ListOutcome::Listed(vec!["svc-a".to_string(), "svc-b".to_string()]),
    }];
    let repos = plan_repositories(listings, Some("svc-b")).unwrap();
    assert_eq!(repos, vec![repo("acme", "svc-b")]);

    let fetches = vec![RepoFetch {
        org: "acme".to_string(),
        name: "svc-b".to_string(),
        outcome: FetchOutcome::Fetched(vec![pr(
            3,
            "Other",
            "https://example.test/acme/svc-b/3",
            "carol",
            &[],
        )]),
    }];
    let out = report_pull_requests(fetches, SearchMode::ReviewRequested, "alice");
    assert!(out.is_empty());
}
