//! Requests to GitHub: where they go, which answers are final, and when they are sent again.

use vstd::prelude::*;

use crate::github::types::{Runner, RunnersResponse};
use crate::number;
use crate::number::{decimal_text, parse_u64};
use crate::text::same_text;

verus! {

/// Where requests go.
pub const GITHUB_API_BASE: &'static str = "https://api.github.com";

/// How often a request is sent.
pub const MAX_RETRIES: u32 = 3;

/// How long to wait before a request is sent for the second time.
pub const INITIAL_BACKOFF_MS: u64 = 1000;

/// How many runners a full page has.
pub const RUNNERS_PER_PAGE: usize = 100;

/// A repository, and the token that gives access to it.
#[derive(Debug)]
pub struct GitHubClient {
    pub repo: String,
    pub token: String,
}

/// What a request is for.
#[derive(Debug, Clone, Copy, PartialEq, Eq, Structural)]
pub enum Method {
    Get,
    Post,
    Delete,
}

/// What came back for a request.
#[derive(Debug, Clone, Copy, PartialEq, Eq, Structural)]
pub enum Response {
    /// An answer with this status.
    Status(u16),
    /// No answer.
    NotSent,
}

/// A request under way: how often it has been sent, and how long to wait before it is sent again.
#[derive(Debug, Clone, Copy, PartialEq, Eq, Structural)]
pub struct Attempt {
    pub number: u32,
    pub backoff_ms: u64,
}

/// Why a request failed.
#[derive(Debug, PartialEq, Eq)]
pub enum GitHubError {
    /// The token is not accepted.
    Unauthorized,
    /// There is no such thing.
    NotFound { endpoint: String },
    /// There was no final answer.
    Exhausted { method: Method, endpoint: String },
    /// The answer could not be read.
    InvalidJson,
}

/// What follows an answer.
#[derive(Debug, PartialEq, Eq)]
pub enum RequestStep {
    /// The answer is the one that was asked for.
    Accept,
    /// Wait this long, then send the request again.
    Retry { wait_ms: u64, attempt: Attempt },
    /// Wait this long, then give up.
    GiveUp { wait_ms: u64, error: GitHubError },
    /// Give up at once.
    Fail { error: GitHubError },
}

/// What an error says.
pub open spec fn github_error_text(e: GitHubError) -> Seq<char> {
    match e {
        GitHubError::Unauthorized => "GitHub API unauthorized - check token"@,
        GitHubError::NotFound { endpoint } => "GitHub API resource not found: "@ + endpoint@,
        GitHubError::Exhausted { method, endpoint } => exhausted_text(method) + endpoint@,
        GitHubError::InvalidJson => "Failed to parse JSON response"@,
    }
}

/// What is said of a request without a final answer.
pub open spec fn exhausted_text(method: Method) -> Seq<char> {
    match method {
        Method::Get => "GitHub API request failed after 3 retries: "@,
        Method::Post => "GitHub API POST failed after 3 retries: "@,
        Method::Delete => "GitHub API DELETE failed after 3 retries: "@,
    }
}

impl GitHubError {
    /// The error in words.
    pub fn message(&self) -> (r: String)
        ensures
            r@ == github_error_text(*self),
    {
        match self {
            GitHubError::Unauthorized => "GitHub API unauthorized - check token".to_string(),
            GitHubError::NotFound { endpoint } => {
                let mut r: String = "GitHub API resource not found: ".to_string();
                r.append(endpoint.as_str());
                r
            },
            GitHubError::Exhausted { method, endpoint } => {
                let mut r: String = match method {
                    Method::Get => "GitHub API request failed after 3 retries: ".to_string(),
                    Method::Post => "GitHub API POST failed after 3 retries: ".to_string(),
                    Method::Delete => "GitHub API DELETE failed after 3 retries: ".to_string(),
                };
                r.append(endpoint.as_str());
                r
            },
            GitHubError::InvalidJson => "Failed to parse JSON response".to_string(),
        }
    }
}

// ---------------------------------------------------------------------------------------------
// Sending again
// ---------------------------------------------------------------------------------------------

/// Whether an answer is the one that was asked for. What has been deleted before is deleted.
pub open spec fn is_accepted(method: Method, response: Response) -> bool {
    match response {
        Response::Status(code) => match method {
            Method::Get => code == 200,
            Method::Post => code == 200 || code == 201,
            Method::Delete => code == 204 || code == 200 || code == 404,
        },
        Response::NotSent => false,
    }
}

/// Whether an answer is final though it is not the one that was asked for.
pub open spec fn is_rejected(method: Method, response: Response) -> bool {
    response == Response::Status(401) || (method == Method::Get && response == Response::Status(
        404,
    ))
}

impl Attempt {
    /// Whether the request has been sent no more often than it may, and the waiting time is right:
    /// it doubles from one time to the next.
    pub open spec fn wf(self) -> bool {
        ||| self.number == 1 && self.backoff_ms == 1000
        ||| self.number == 2 && self.backoff_ms == 2000
        ||| self.number == 3 && self.backoff_ms == 4000
    }

    /// The first time that a request is sent.
    pub fn first() -> (r: Attempt)
        ensures
            r.wf(),
            r.number == 1,
            r.backoff_ms == INITIAL_BACKOFF_MS,
    {
        Attempt { number: 1, backoff_ms: INITIAL_BACKOFF_MS }
    }
}

/// Whether `step` follows an answer to a request.
pub open spec fn is_next_step(
    method: Method,
    endpoint: Seq<char>,
    attempt: Attempt,
    response: Response,
    step: RequestStep,
) -> bool {
    match step {
        RequestStep::Accept => is_accepted(method, response),
        RequestStep::Fail { error } => {
            &&& is_rejected(method, response)
            &&& match error {
                GitHubError::Unauthorized => response == Response::Status(401),
                GitHubError::NotFound { endpoint: e } => response == Response::Status(404) && e@
                    == endpoint,
                _ => false,
            }
        },
        RequestStep::Retry { wait_ms, attempt: next } => {
            &&& !is_accepted(method, response) && !is_rejected(method, response)
            &&& attempt.number < MAX_RETRIES
            &&& wait_ms == attempt.backoff_ms
            &&& next.number == attempt.number + 1
            &&& next.backoff_ms == 2 * attempt.backoff_ms
        },
        RequestStep::GiveUp { wait_ms, error } => {
            &&& !is_accepted(method, response) && !is_rejected(method, response)
            &&& attempt.number == MAX_RETRIES
            &&& wait_ms == attempt.backoff_ms
            &&& error matches GitHubError::Exhausted { method: m, endpoint: e } && m == method && e@
                == endpoint
        },
    }
}

/// Decides what follows an answer.
///
/// Only an answer that says that the token is not accepted ends a request at once, and for a question
/// also one that says that there is no such thing. Everything else is asked for again after a while,
/// until the request has been sent three times.
pub fn next_step(method: Method, endpoint: &str, attempt: Attempt, response: Response) -> (r:
    RequestStep)
    requires
        attempt.wf(),
    ensures
        is_next_step(method, endpoint@, attempt, response, r),
        r matches RequestStep::Retry { attempt: next, .. } ==> next.wf(),
{
    let accepted: bool = match response {
        Response::Status(code) => match method {
            Method::Get => code == 200,
            Method::Post => code == 200 || code == 201,
            Method::Delete => code == 204 || code == 200 || code == 404,
        },
        Response::NotSent => false,
    };
    if accepted {
        return RequestStep::Accept;
    }
    match response {
        Response::Status(code) => {
            if code == 401 {
                return RequestStep::Fail { error: GitHubError::Unauthorized };
            }
            if code == 404 && method == Method::Get {
                return RequestStep::Fail {
                    error: GitHubError::NotFound { endpoint: endpoint.to_string() },
                };
            }
        },
        Response::NotSent => {},
    }
    if attempt.number < MAX_RETRIES {
        RequestStep::Retry {
            wait_ms: attempt.backoff_ms,
            attempt: Attempt { number: attempt.number + 1, backoff_ms: 2 * attempt.backoff_ms },
        }
    } else {
        RequestStep::GiveUp {
            wait_ms: attempt.backoff_ms,
            error: GitHubError::Exhausted { method, endpoint: endpoint.to_string() },
        }
    }
}

/// Tells whether the number of requests that are left is low, from the header that states it.
pub fn is_rate_limit_low(remaining: &str) -> (r: bool)
    ensures
        r == (number::parse_up_to(remaining@, u32::MAX as nat) matches Some(n) && n < 100),
{
    match parse_u64(remaining) {
        Some(n) => n < 100,
        None => false,
    }
}

// ---------------------------------------------------------------------------------------------
// Requests
// ---------------------------------------------------------------------------------------------

impl GitHubClient {
    /// A client for a repository.
    pub fn new(repo: String, token: String) -> (r: Self)
        ensures
            r.repo == repo,
            r.token == token,
    {
        GitHubClient { repo, token }
    }

    /// Where a request goes.
    pub fn url(endpoint: &str) -> (r: String)
        ensures
            r@ == "https://api.github.com"@ + endpoint@,
    {
        let mut r: String = GITHUB_API_BASE.to_string();
        r.append(endpoint);
        r
    }

    /// What gives access.
    pub fn authorization(&self) -> (r: String)
        ensures
            r@ == "token "@ + self.token@,
    {
        let mut r: String = "token ".to_string();
        r.append(self.token.as_str());
        r
    }

    /// Where the runners of the repository are.
    pub open spec fn runners_path(self) -> Seq<char> {
        "/repos/"@ + self.repo@ + "/actions/runners"@
    }

    fn runners_endpoint(&self) -> (r: String)
        ensures
            r@ == self.runners_path(),
    {
        let mut r: String = "/repos/".to_string();
        r.append(self.repo.as_str());
        r.append("/actions/runners");
        r
    }

    /// Where a token for new runners is asked for.
    pub fn get_registration_token(&self) -> (r: String)
        ensures
            r@ == self.runners_path() + "/registration-token"@,
    {
        let mut r = self.runners_endpoint();
        r.append("/registration-token");
        r
    }

    /// Where a page of the runners is asked for.
    pub fn list_runners(&self, page: u64) -> (r: String)
        ensures
            r@ == self.runners_path() + "?per_page=100&page="@ + number::decimal(page as nat),
    {
        let mut r = self.runners_endpoint();
        r.append("?per_page=100&page=");
        r.append(decimal_text(page).as_str());
        r
    }

    /// Where a runner is deleted.
    pub fn delete_runner(&self, runner_id: u64) -> (r: String)
        ensures
            r@ == self.runners_path() + "/"@ + number::decimal(runner_id as nat),
    {
        let mut r = self.runners_endpoint();
        r.append("/");
        r.append(decimal_text(runner_id).as_str());
        r
    }

    /// Adds a page to the runners, and tells whether another page has to be asked for: only a full
    /// page is followed by another.
    pub fn add_page(runners: &mut Vec<Runner>, page: RunnersResponse) -> (r: bool)
        ensures
            final(runners)@ == old(runners)@ + page.runners@,
            r == (page.runners@.len() >= RUNNERS_PER_PAGE),
    {
        let mut rest = page.runners;
        let more: bool = rest.len() >= RUNNERS_PER_PAGE;
        runners.append(&mut rest);
        more
    }

    /// Finds a runner by its name.
    pub fn find_runner_by_name(runners: &Vec<Runner>, name: &str) -> (r: Option<u64>)
        ensures
            r == runner_id(runners@, name@),
    {
        let mut i: usize = 0;
        assert(runners@.skip(0) =~= runners@);
        while i < runners.len()
            invariant
                i <= runners@.len(),
                runner_id(runners@, name@) == runner_id(runners@.skip(i as int), name@),
            decreases runners.len() - i,
        {
            assert(runners@.skip(i as int)[0] == runners@[i as int]);
            assert(runners@.skip(i as int).drop_first() =~= runners@.skip(i + 1));
            if same_text(runners[i].name.as_str(), name) {
                return Some(runners[i].id);
            }
            i = i + 1;
        }
        None
    }

    /// Where a runner is deleted that is known by its name; `None` where there is no such runner, and
    /// nothing to delete.
    pub fn delete_runner_by_name(&self, runners: &Vec<Runner>, name: &str) -> (r: Option<String>)
        ensures
            match runner_id(runners@, name@) {
                Some(id) => r matches Some(s) && s@ == self.runners_path() + "/"@ + number::decimal(
                    id as nat,
                ),
                None => r is None,
            },
    {
        match Self::find_runner_by_name(runners, name) {
            Some(id) => Some(self.delete_runner(id)),
            None => None,
        }
    }
}

/// The first runner with this name.
pub open spec fn runner_id(runners: Seq<Runner>, name: Seq<char>) -> Option<u64>
    decreases runners.len(),
{
    if runners.len() == 0 {
        None
    } else if runners[0].name@ == name {
        Some(runners[0].id)
    } else {
        runner_id(runners.drop_first(), name)
    }
}

/// No answer asks for two things: one that is accepted is not rejected.
pub proof fn lemma_answers_are_clear(method: Method, response: Response)
    ensures
        !(is_accepted(method, response) && is_rejected(method, response)),
{
}

/// A request ends: it is sent again only while it has been sent less than three times, and every time
/// twice as long is waited as the time before.
pub proof fn lemma_requests_end(
    method: Method,
    endpoint: Seq<char>,
    attempt: Attempt,
    response: Response,
    step: RequestStep,
)
    requires
        attempt.wf(),
        is_next_step(method, endpoint, attempt, response, step),
    ensures
        step matches RequestStep::Retry { attempt: next, .. } ==> {
            &&& next.wf()
            &&& attempt.number < next.number <= MAX_RETRIES
        },
        step matches RequestStep::Retry { wait_ms, attempt: next } ==> next.backoff_ms == 2
            * wait_ms,
{
}

} // verus!
