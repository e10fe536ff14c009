mod config;
mod pattern;
mod pipeline;
mod text;

pub use config::{
    first_org_index, lemma_first_org_index, org_listed, parse_org_modification, pattern_wf, Config,
    ConfigError, OrgModification,
};
pub use pattern::{regex_matches, regex_valid};
pub use pipeline::{
    classify, classify_spec, collect_fetched, collect_spec, enumerate_repos, enumerate_spec,
    fetched_prs, filter_match_spec, filter_repos, lemma_enumerate_skip_tolerant,
    lemma_filter_idempotent, org_repos, plan_repositories, report_pull_requests, requests_review,
    to_record,
    FetchOutcome, GhPullRequest, GhRepo, GhUser, ListOutcome, OrgListing, PullRequest, RepoFetch,
    SearchMode, SkipReason, User,
};
pub use text::{
    clears_pattern, is_clear_keyword, is_space, split_and_trim, split_spec, split_trimmed, str_eq,
    trim_spec, trim_str, views_of,
};
