use vstd::prelude::*;

use crate::config::ConfigError;
use crate::pattern::{regex_is_valid, regex_match_text, regex_matches, regex_valid};
use crate::text::str_eq;

verus! {

/// A search run either looks for pull requests whose review was requested
/// from the user, or for pull requests the user authored.
#[derive(Clone, Copy, Debug, PartialEq, Eq)]
pub enum SearchMode {
    ReviewRequested,
    Own,
}

/// Why one organization or repository was left out of a run.
#[derive(Clone, Copy, Debug, PartialEq, Eq)]
pub enum SkipReason {
    /// The external query tool reported failure.
    ToolFailure,
    /// The external query tool's output could not be understood.
    MalformedPayload,
}

/// A repository, tagged with the organization that owns it.
#[derive(Debug, Clone, PartialEq)]
pub struct GhRepo {
    pub name: String,
    pub org: String,
}

/// A user as the platform reports it.
#[derive(Debug, Clone, PartialEq)]
pub struct GhUser {
    pub login: String,
}

/// An open pull request as the platform reports it, with the users whose
/// review was requested.
#[derive(Debug, Clone, PartialEq)]
pub struct GhPullRequest {
    pub number: u32,
    pub title: String,
    pub url: String,
    pub author: GhUser,
    pub review_requests: Vec<GhUser>,
}

/// The author of a reported pull request.
#[derive(Debug, Clone, PartialEq)]
pub struct User {
    pub login: String,
}

/// One row of a run's output.
#[derive(Debug, Clone, PartialEq)]
pub struct PullRequest {
    pub number: u32,
    pub title: String,
    pub html_url: String,
    pub user: User,
}

/// What listing one organization's repositories produced: the repository
/// names, or a skip.
#[derive(Debug, PartialEq)]
pub enum ListOutcome {
    Listed(Vec<String>),
    Skipped(SkipReason),
}

/// One organization's listing outcome.
#[derive(Debug, PartialEq)]
pub struct OrgListing {
    pub org: String,
    pub outcome: ListOutcome,
}

/// What fetching one repository's open pull requests produced: the raw
/// records, or a skip.
#[derive(Debug, PartialEq)]
pub enum FetchOutcome {
    Fetched(Vec<GhPullRequest>),
    Skipped(SkipReason),
}

/// One repository's fetch outcome.
#[derive(Debug, PartialEq)]
pub struct RepoFetch {
    pub org: String,
    pub name: String,
    pub outcome: FetchOutcome,
}

/// The repositories one listing contributes: each listed name tagged with the
/// organization, in platform order; a skipped organization contributes none.
pub open spec fn org_repos(l: OrgListing) -> Seq<GhRepo> {
    match l.outcome {
        ListOutcome::Listed(names) => names@.map_values(
            |n: String| GhRepo { name: n, org: l.org },
        ),
        ListOutcome::Skipped(_) => Seq::<GhRepo>::empty(),
    }
}

/// The repositories of all listings, concatenated in listing order.
pub open spec fn enumerate_spec(listings: Seq<OrgListing>) -> Seq<GhRepo>
    decreases listings.len(),
{
    if listings.len() == 0 {
        Seq::<GhRepo>::empty()
    } else {
        org_repos(listings[0]) + enumerate_spec(listings.drop_first())
    }
}

/// The repositories whose bare name the pattern matches, in input order.
pub open spec fn filter_match_spec(repos: Seq<GhRepo>, pattern: Seq<char>) -> Seq<GhRepo> {
    repos.filter(|x: GhRepo| regex_matches(pattern, x.name@))
}

/// The raw pull requests one fetch contributes, in platform order; a skipped
/// repository contributes none.
pub open spec fn fetched_prs(f: RepoFetch) -> Seq<GhPullRequest> {
    match f.outcome {
        FetchOutcome::Fetched(prs) => prs@,
        FetchOutcome::Skipped(_) => Seq::<GhPullRequest>::empty(),
    }
}

/// The raw pull requests of all fetches, concatenated in fetch order.
pub open spec fn collect_spec(fetches: Seq<RepoFetch>) -> Seq<GhPullRequest>
    decreases fetches.len(),
{
    if fetches.len() == 0 {
        Seq::<GhPullRequest>::empty()
    } else {
        fetched_prs(fetches[0]) + collect_spec(fetches.drop_first())
    }
}

/// The output row a raw record produces.
pub open spec fn to_record(p: GhPullRequest) -> PullRequest {
    PullRequest {
        number: p.number,
        title: p.title,
        html_url: p.url,
        user: User { login: p.author.login },
    }
}

/// Whether one of the logins whose review the record solicits equals
/// `username` exactly.
pub open spec fn requests_review(p: GhPullRequest, username: Seq<char>) -> bool {
    exists|i: int| 0 <= i < p.review_requests@.len() && p.review_requests@[i].login@ == username
}

/// What a run reports of the raw records: in own mode every record, in
/// review-requested mode exactly those that ask `username` for review, in
/// input order either way.
pub open spec fn classify_spec(
    prs: Seq<GhPullRequest>,
    mode: SearchMode,
    username: Seq<char>,
) -> Seq<PullRequest> {
    match mode {
        SearchMode::Own => prs.map_values(|p: GhPullRequest| to_record(p)),
        SearchMode::ReviewRequested => prs.filter(
            |p: GhPullRequest| requests_review(p, username),
        ).map_values(|p: GhPullRequest| to_record(p)),
    }
}

proof fn lemma_filter_push<A>(s: Seq<A>, pred: spec_fn(A) -> bool, x: A)
    ensures
        s.push(x).filter(pred) == if pred(x) {
            s.filter(pred).push(x)
        } else {
            s.filter(pred)
        },
{
    reveal(Seq::filter);
    assert(s.push(x).drop_last() =~= s);
    assert(s.push(x).last() == x);
}

proof fn lemma_filter_idem<A>(s: Seq<A>, pred: spec_fn(A) -> bool)
    ensures
        s.filter(pred).filter(pred) == s.filter(pred),
    decreases s.len(),
{
    reveal(Seq::filter);
    if s.len() == 0 {
    } else {
        let d = s.drop_last();
        lemma_filter_idem(d, pred);
        if pred(s.last()) {
            lemma_filter_push(d.filter(pred), pred, s.last());
        }
    }
}

/// Filtering is idempotent: running the repository filter twice with the
/// same pattern yields the same result as running it once.
pub proof fn lemma_filter_idempotent(repos: Seq<GhRepo>, pattern: Seq<char>)
    ensures
        filter_match_spec(filter_match_spec(repos, pattern), pattern) == filter_match_spec(
            repos,
            pattern,
        ),
{
    lemma_filter_idem(repos, |x: GhRepo| regex_matches(pattern, x.name@));
}

/// Skip-tolerance: an organization whose listing was skipped contributes
/// nothing, so enumerating with that listing present yields exactly the
/// repositories of the other listings, in their order, with no error.
pub proof fn lemma_enumerate_skip_tolerant(listings: Seq<OrgListing>, i: int)
    requires
        0 <= i < listings.len(),
        listings[i].outcome is Skipped,
    ensures
        enumerate_spec(listings) == enumerate_spec(listings.remove(i)),
    decreases listings.len(),
{
    if i == 0 {
        assert(org_repos(listings[0]) =~= Seq::<GhRepo>::empty());
        assert(listings.remove(0) =~= listings.drop_first());
        assert(enumerate_spec(listings) =~= enumerate_spec(listings.drop_first()));
    } else {
        lemma_enumerate_skip_tolerant(listings.drop_first(), i - 1);
        assert(listings.remove(i).drop_first() =~= listings.drop_first().remove(i - 1));
        assert(listings.remove(i)[0] == listings[0]);
    }
}

/// Tags every successfully listed repository with its organization and
/// concatenates the listings in order; skipped organizations contribute
/// nothing and never fail the run.
pub fn enumerate_repos(listings: Vec<OrgListing>) -> (r: Vec<GhRepo>)
    ensures
        r@ == enumerate_spec(listings@),
{
    let ghost all = listings@;
    let mut rest = listings;
    let mut out: Vec<GhRepo> = Vec::new();
    while rest.len() > 0
        invariant
            enumerate_spec(all) == out@ + enumerate_spec(rest@),
        decreases rest.len(),
    {
        let ghost rest0 = rest@;
        let l = rest.remove(0);
        proof {
            assert(rest0.remove(0) =~= rest0.drop_first());
        }
        let OrgListing { org, outcome } = l;
        match outcome {
            ListOutcome::Listed(names) => {
                let ghost contributed = names@.map_values(
                    |n: String| GhRepo { name: n, org: org },
                );
                let ghost names_all = names@;
                let ghost before = out@;
                let mut names = names;
                while names.len() > 0
                    invariant
                        before + names_all.map_values(|n: String| GhRepo { name: n, org: org })
                            == out@ + names@.map_values(
                            |n: String| GhRepo { name: n, org: org },
                        ),
                    decreases names.len(),
                {
                    let ghost names0 = names@;
                    let n = names.remove(0);
                    let tagged = GhRepo { name: n, org: org.clone() };
                    proof {
                        let f = |n: String| GhRepo { name: n, org: org };
                        assert(names0.remove(0) =~= names0.drop_first());
                        assert(names0.map_values(f) =~= seq![f(names0[0])] + names0.drop_first()
                            .map_values(f));
                        assert(tagged == f(names0[0]));
                        assert(out@.push(tagged) + names0.drop_first().map_values(f) =~= out@ + (
                        seq![f(names0[0])] + names0.drop_first().map_values(f)));
                    }
                    out.push(tagged);
                }
                proof {
                    assert(names@.map_values(|n: String| GhRepo { name: n, org: org })
                        =~= Seq::<GhRepo>::empty());
                    assert(out@ =~= before + contributed);
                    assert(enumerate_spec(all) =~= out@ + enumerate_spec(rest@));
                }
            },
            ListOutcome::Skipped(_) => {
                proof {
                    assert(out@ + Seq::<GhRepo>::empty() =~= out@);
                }
            },
        }
    }
    proof {
        assert(out@ + enumerate_spec(rest@) =~= out@);
    }
    out
}

/// With no pattern, hands the repositories back unchanged; with a valid
/// pattern, keeps exactly the repositories whose bare name the pattern
/// matches somewhere, in input order; with an invalid pattern, reports
/// `InvalidPattern` (a caller-contract violation: patterns are validated
/// when they are stored).
pub fn filter_repos(repos: Vec<GhRepo>, pattern: Option<&str>) -> (r: Result<
    Vec<GhRepo>,
    ConfigError,
>)
    ensures
        pattern is None ==> (r matches Ok(v) && v@ == repos@),
        pattern matches Some(p) ==> {
            &&& regex_valid(p@) ==> (r matches Ok(v) && v@ == filter_match_spec(repos@, p@))
            &&& !regex_valid(p@) ==> r == Err::<Vec<GhRepo>, ConfigError>(
                ConfigError::InvalidPattern,
            )
        },
{
    match pattern {
        None => Ok(repos),
        Some(p) => {
            if !regex_is_valid(p) {
                return Err(ConfigError::InvalidPattern);
            }
            let ghost pred = |x: GhRepo| regex_matches(p@, x.name@);
            let mut out: Vec<GhRepo> = Vec::new();
            let mut i: usize = 0;
            proof {
                assert(repos@.subrange(0, 0) =~= Seq::<GhRepo>::empty());
                reveal(Seq::filter);
            }
            while i < repos.len()
                invariant
                    i <= repos.len(),
                    regex_valid(p@),
                    out@ == repos@.subrange(0, i as int).filter(pred),
                    pred == (|x: GhRepo| regex_matches(p@, x.name@)),
                decreases repos.len() - i,
            {
                let keep = regex_match_text(p, repos[i].name.as_str()).unwrap();
                proof {
                    assert(repos@.subrange(0, i + 1) =~= repos@.subrange(0, i as int).push(
                        repos@[i as int],
                    ));
                    lemma_filter_push(repos@.subrange(0, i as int), pred, repos@[i as int]);
                }
                if keep {
                    let kept = GhRepo { name: repos[i].name.clone(), org: repos[i].org.clone() };
                    proof {
                        assert(kept == repos@[i as int]);
                    }
                    out.push(kept);
                }
                i += 1;
            }
            proof {
                assert(repos@.subrange(0, repos@.len() as int) =~= repos@);
            }
            Ok(out)
        },
    }
}

/// Concatenates the successfully fetched raw records in fetch order; skipped
/// repositories contribute nothing and never fail the run.
pub fn collect_fetched(fetches: Vec<RepoFetch>) -> (r: Vec<GhPullRequest>)
    ensures
        r@ == collect_spec(fetches@),
{
    let ghost all = fetches@;
    let mut rest = fetches;
    let mut out: Vec<GhPullRequest> = Vec::new();
    while rest.len() > 0
        invariant
            collect_spec(all) == out@ + collect_spec(rest@),
        decreases rest.len(),
    {
        let ghost rest0 = rest@;
        let f = rest.remove(0);
        proof {
            assert(rest0.remove(0) =~= rest0.drop_first());
        }
        match f.outcome {
            FetchOutcome::Fetched(prs) => {
                let ghost before = out@;
                let ghost prs0 = prs@;
                let mut prs = prs;
                out.append(&mut prs);
                proof {
                    assert(out@ =~= before + prs0);
                    assert(collect_spec(all) =~= out@ + collect_spec(rest@));
                }
            },
            FetchOutcome::Skipped(_) => {
                proof {
                    assert(out@ + Seq::<GhPullRequest>::empty() =~= out@);
                }
            },
        }
    }
    proof {
        assert(out@ + collect_spec(rest@) =~= out@);
    }
    out
}

/// Whether the record solicits a review from `username`.
fn asks_for_review(p: &GhPullRequest, username: &str) -> (b: bool)
    ensures
        b == requests_review(*p, username@),
{
    let mut i: usize = 0;
    while i < p.review_requests.len()
        invariant
            i <= p.review_requests.len(),
            forall|k: int| 0 <= k < i ==> p.review_requests@[k].login@ != username@,
        decreases p.review_requests.len() - i,
    {
        if str_eq(p.review_requests[i].login.as_str(), username) {
            return true;
        }
        i += 1;
    }
    false
}

fn make_record(p: GhPullRequest) -> (r: PullRequest)
    ensures
        r == to_record(p),
{
    let GhPullRequest { number, title, url, author, review_requests: _ } = p;
    PullRequest { number, title, html_url: url, user: User { login: author.login } }
}

/// In own mode, turns every raw record into an output row; in
/// review-requested mode, keeps exactly the records that ask `username` for
/// review. Input order is preserved either way.
pub fn classify(prs: Vec<GhPullRequest>, mode: SearchMode, username: &str) -> (r: Vec<PullRequest>)
    ensures
        r@ == classify_spec(prs@, mode, username@),
{
    let ghost all = prs@;
    let ghost pred = |p: GhPullRequest| requests_review(p, username@);
    let ghost record = |p: GhPullRequest| to_record(p);
    let mut rest = prs;
    let total: usize = rest.len();
    let mut out: Vec<PullRequest> = Vec::new();
    let mut i: usize = 0;
    proof {
        assert(all.subrange(0, 0) =~= Seq::<GhPullRequest>::empty());
        reveal(Seq::filter);
    }
    while rest.len() > 0
        invariant
            total == all.len(),
            i + rest.len() == all.len(),
            rest@ == all.subrange(i as int, all.len() as int),
            mode is Own ==> out@ == all.subrange(0, i as int).map_values(record),
            mode is ReviewRequested ==> out@ == all.subrange(0, i as int).filter(pred).map_values(
                record,
            ),
            pred == (|p: GhPullRequest| requests_review(p, username@)),
            record == (|p: GhPullRequest| to_record(p)),
        decreases rest.len(),
    {
        let ghost rest0 = rest@;
        let p = rest.remove(0);
        proof {
            assert(rest0.remove(0) =~= rest0.drop_first());
            assert(rest0.drop_first() =~= all.subrange(i + 1, all.len() as int));
            assert(p == all[i as int]);
            assert(all.subrange(0, i + 1) =~= all.subrange(0, i as int).push(all[i as int]));
            lemma_filter_push(all.subrange(0, i as int), pred, all[i as int]);
        }
        match mode {
            SearchMode::Own => {
                let row = make_record(p);
                proof {
                    assert(all.subrange(0, i + 1).map_values(record) =~= all.subrange(
                        0,
                        i as int,
                    ).map_values(record).push(record(all[i as int])));
                }
                out.push(row);
            },
            SearchMode::ReviewRequested => {
                if asks_for_review(&p, username) {
                    let row = make_record(p);
                    proof {
                        assert(all.subrange(0, i + 1).filter(pred).map_values(record)
                            =~= all.subrange(0, i as int).filter(pred).map_values(record).push(
                            record(all[i as int]),
                        ));
                    }
                    out.push(row);
                }
            },
        }
        i += 1;
    }
    proof {
        assert(all.subrange(0, all.len() as int) =~= all);
    }
    out
}

/// The first half of a search run, after the per-organization listings are
/// in: tags and concatenates the listed repositories, then narrows them to
/// the optional pattern.
pub fn plan_repositories(listings: Vec<OrgListing>, pattern: Option<&str>) -> (r: Result<
    Vec<GhRepo>,
    ConfigError,
>)
    ensures
        pattern is None ==> (r matches Ok(v) && v@ == enumerate_spec(listings@)),
        pattern matches Some(p) ==> {
            &&& regex_valid(p@) ==> (r matches Ok(v) && v@ == filter_match_spec(
                enumerate_spec(listings@),
                p@,
            ))
            &&& !regex_valid(p@) ==> r == Err::<Vec<GhRepo>, ConfigError>(
                ConfigError::InvalidPattern,
            )
        },
{
    let repos = enumerate_repos(listings);
    filter_repos(repos, pattern)
}

/// The second half of a search run, after the per-repository fetches are in:
/// concatenates the fetched records in fetch order and classifies them for
/// the mode and user.
pub fn report_pull_requests(fetches: Vec<RepoFetch>, mode: SearchMode, username: &str) -> (r: Vec<
    PullRequest,
>)
    ensures
        r@ == classify_spec(collect_spec(fetches@), mode, username@),
{
    let raw = collect_fetched(fetches);
    classify(raw, mode, username)
}

} // verus!
