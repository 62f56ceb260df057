//! Laws on the requests to GitHub.

use vstd::prelude::*;

use crate::github::client;
use crate::github::client::{Attempt, GitHubClient, GitHubError, Method, RequestStep, Response};
use crate::github::types::Runner;
use crate::laws::texts;
use crate::search;

verus! {

/// Which answers are accepted: 200 always, 201 to something new, and 204 or 404 to a deletion. The
/// token counts as refused with 401, and a question has no answer with 404; both end the request at
/// once, and nothing else does.
pub proof fn lemma_what_answers_mean(
    method: Method,
    endpoint: Seq<char>,
    attempt: Attempt,
    code: u16,
    step: RequestStep,
)
    requires
        client::is_next_step(method, endpoint, attempt, Response::Status(code), step),
    ensures
        step is Accept <==> code == 200 || (method is Post && code == 201) || (method is Delete
            && (code == 204 || code == 404)),
        code == 401 ==> step == (RequestStep::Fail { error: GitHubError::Unauthorized }),
        method is Get && code == 404 ==> (step matches RequestStep::Fail { error: GitHubError::NotFound {
            endpoint: e,
        } } && e@ == endpoint),
        step is Fail ==> code == 401 || (method is Get && code == 404),
{
}

/// A request that had no final answer is sent again after one second and then after two, and given up
/// after the third time and four seconds.
pub proof fn lemma_how_requests_are_repeated(
    method: Method,
    endpoint: Seq<char>,
    attempt: Attempt,
    response: Response,
    step: RequestStep,
)
    requires
        attempt.wf(),
        client::is_next_step(method, endpoint, attempt, response, step),
        response is NotSent || (response matches Response::Status(code) && code >= 500),
    ensures
        attempt.number == 1 ==> (step matches RequestStep::Retry { wait_ms, attempt: next }
            && wait_ms == 1000 && next.number == 2),
        attempt.number == 2 ==> (step matches RequestStep::Retry { wait_ms, attempt: next }
            && wait_ms == 2000 && next.number == 3),
        attempt.number == 3 ==> (step matches RequestStep::GiveUp { wait_ms, error } && wait_ms
            == 4000 && (error matches GitHubError::Exhausted { method: m, endpoint: e } && m
            == method && e@ == endpoint)),
        step matches RequestStep::Retry { attempt: next, .. } ==> next.wf(),
{
}

/// Whether the runner at `i` is the first one with a name.
pub open spec fn is_first_runner(runners: Seq<Runner>, name: Seq<char>, i: int) -> bool {
    &&& 0 <= i < runners.len()
    &&& runners[i].name@ == name
    &&& forall|j: int| 0 <= j < i ==> (#[trigger] runners[j]).name@ != name
}

/// A runner is found by its whole name, and the first one counts.
pub proof fn lemma_runners_are_found(runners: Seq<Runner>, name: Seq<char>)
    ensures
        forall|i: int| #[trigger]
            is_first_runner(runners, name, i) ==> client::runner_id(runners, name) == Some(
                runners[i].id,
            ),
        client::runner_id(runners, name) is None ==> forall|i: int|
            0 <= i < runners.len() ==> (#[trigger] runners[i]).name@ != name,
        client::runner_id(runners, name) is Some ==> exists|i: int| #[trigger]
            is_first_runner(runners, name, i),
    decreases runners.len(),
{
    if runners.len() > 0 {
        let t = runners.drop_first();
        lemma_runners_are_found(t, name);
        if runners[0].name@ == name {
            assert(is_first_runner(runners, name, 0));
            assert forall|i: int| #[trigger] is_first_runner(runners, name, i) implies i == 0 by {
                if i > 0 {
                    assert(runners[0].name@ != name);
                }
            }
        } else {
            assert forall|i: int| #[trigger] is_first_runner(runners, name, i) implies
                is_first_runner(t, name, i - 1) by {
                assert(t[i - 1] == runners[i]);
                assert forall|j: int| 0 <= j < i - 1 implies (#[trigger] t[j]).name@ != name by {
                    assert(t[j] == runners[j + 1]);
                }
            }
            if client::runner_id(t, name) is Some {
                let i = choose|i: int| #[trigger] is_first_runner(t, name, i);
                assert(is_first_runner(runners, name, i + 1)) by {
                    assert(t[i] == runners[i + 1]);
                    assert forall|j: int| 0 <= j < i + 1 implies (#[trigger] runners[j]).name@
                        != name by {
                        if j > 0 {
                            assert(t[j - 1] == runners[j]);
                        }
                    }
                }
            } else {
                assert forall|i: int| 0 <= i < runners.len() implies (#[trigger] runners[i]).name@
                    != name by {
                    if i > 0 {
                        assert(t[i - 1] == runners[i]);
                    }
                }
            }
        }
    }
}

/// The runners are those of the repository.
pub proof fn lemma_runners_of_the_repository(c: GitHubClient)
    ensures
        "/repos/"@.is_prefix_of(c.runners_path()),
        "/actions/runners"@.is_suffix_of(c.runners_path()),
        c.runners_path().len() == "/repos/"@.len() + c.repo@.len() + "/actions/runners"@.len(),
        search::occurs_at(c.runners_path(), c.repo@, "/repos/"@.len() as int),
{
    let p = c.runners_path();
    let (a, z) = ("/repos/"@, "/actions/runners"@);
    assert(a =~= p.take(a.len() as int));
    assert(z =~= p.skip(p.len() - z.len()));
    texts::lemma_part_is_found(a, c.repo@, z);
}

} // verus!
