//! Laws on the result of a job: what its event says.

use vstd::prelude::*;

use crate::event;
use crate::event::Event;
use crate::jobs;
use crate::jobs::{JobBilling, JobStatus, WorkerJobResponse};
use crate::json;
use crate::laws::events;
use crate::number;
use crate::search;

verus! {

/// Whether `e` is the event that states the response to a request.
pub open spec fn states_result(
    e: Event,
    secret_key: Seq<char>,
    request_id: Seq<char>,
    requester: Seq<char>,
    r: WorkerJobResponse,
) -> bool {
    event::is_signed_event(
        e,
        secret_key,
        jobs::JOB_RESULT_KIND,
        json::object_text(jobs::response_members(r)),
        jobs::result_tags(request_id, requester, r),
    )
}

/// The names that the tags of a result can have, in the order in which they come.
pub open spec fn result_names() -> Seq<Seq<char>> {
    seq![
        "e"@,
        "p"@,
        "status"@,
        "duration"@,
        "billable_duration"@,
        "cost"@,
        "mint"@,
        "unit"@,
        "change"@,
        "error"@,
    ]
}

proof fn lemma_names_differ()
    ensures
        forall|i: int, j: int|
            0 <= i < j < 10 ==> #[trigger] result_names()[i] != #[trigger] result_names()[j],
{
    reveal_strlit("e");
    reveal_strlit("p");
    reveal_strlit("status");
    reveal_strlit("duration");
    reveal_strlit("billable_duration");
    reveal_strlit("cost");
    reveal_strlit("mint");
    reveal_strlit("unit");
    reveal_strlit("change");
    reveal_strlit("error");
    let n = result_names();
    assert(n[0].len() == 1 && n[1].len() == 1 && n[2].len() == 6 && n[3].len() == 8);
    assert(n[4].len() == 17 && n[5].len() == 4 && n[6].len() == 4 && n[7].len() == 4);
    assert(n[8].len() == 6 && n[9].len() == 5);
    assert(n[0][0] == 'e' && n[1][0] == 'p' && n[2][0] == 's' && n[8][0] == 'c');
    assert(n[5][0] == 'c' && n[6][0] == 'm' && n[7][0] == 'u');
}

/// Whether a tag has one of these names, and one value.
pub open spec fn is_result_tag(t: Seq<Seq<char>>) -> bool {
    t.len() == 2 && result_names().contains(t[0])
}

/// One tag with a name and a value, as a list.
pub open spec fn tag(name: Seq<char>, value: Seq<char>) -> Seq<Seq<Seq<char>>> {
    seq![seq![name, value]]
}

/// The result of a job is billed in its tags: where there is a bill, the event has one tag each for the
/// duration, the billable duration, the cost, the mint and the unit, with the values of the bill,
/// whether or not there is change. It has one for the change exactly where there is some. Without a
/// bill it has none of these.
pub proof fn lemma_bills_are_tagged(
    e: Event,
    secret_key: Seq<char>,
    request_id: Seq<char>,
    requester: Seq<char>,
    r: WorkerJobResponse,
)
    requires
        states_result(e, secret_key, request_id, requester, r),
    ensures
        r.billing matches Some(b) ==> {
            let tags = e.tags.deep_view();
            &&& events::named(tags, "duration"@) == tag("duration"@, number::decimal(b.duration as nat))
            &&& events::named(tags, "billable_duration"@) == tag(
                "billable_duration"@,
                number::decimal(b.billable_duration as nat),
            )
            &&& events::named(tags, "cost"@) == tag("cost"@, number::decimal(b.cost as nat))
            &&& events::named(tags, "mint"@) == tag("mint"@, b.mint@)
            &&& events::named(tags, "unit"@) == tag("unit"@, b.unit@)
            &&& b.change matches Some(c) ==> events::named(tags, "change"@) == tag("change"@, c@)
            &&& b.change is None ==> events::named(tags, "change"@).len() == 0
        },
        r.billing is None ==> {
            let tags = e.tags.deep_view();
            &&& events::named(tags, "duration"@).len() == 0
            &&& events::named(tags, "billable_duration"@).len() == 0
            &&& events::named(tags, "cost"@).len() == 0
            &&& events::named(tags, "mint"@).len() == 0
            &&& events::named(tags, "unit"@).len() == 0
            &&& events::named(tags, "change"@).len() == 0
        },
{
    lemma_result_tags(e, secret_key, request_id, requester, r);
}

/// Whether the tags refer to the request, and state the status, the bill and the errors of a response,
/// each of them once.
pub open spec fn tells_result(
    tags: Seq<Seq<Seq<char>>>,
    request_id: Seq<char>,
    r: WorkerJobResponse,
) -> bool {
    &&& events::named(tags, "e"@) == tag("e"@, request_id)
    &&& events::named(tags, "status"@) == tag("status"@, match r.status {
        JobStatus::Success => "success"@,
        JobStatus::Failure => "failure"@,
        JobStatus::Timeout => "timeout"@,
        JobStatus::Invalid => "invalid"@,
    })
    &&& match r.billing {
        Some(b) => {
            &&& events::named(tags, "duration"@) == tag("duration"@, number::decimal(b.duration as nat))
            &&& events::named(tags, "billable_duration"@) == tag(
                "billable_duration"@,
                number::decimal(b.billable_duration as nat),
            )
            &&& events::named(tags, "cost"@) == tag("cost"@, number::decimal(b.cost as nat))
            &&& events::named(tags, "mint"@) == tag("mint"@, b.mint@)
            &&& events::named(tags, "unit"@) == tag("unit"@, b.unit@)
            &&& b.change matches Some(c) ==> events::named(tags, "change"@) == tag("change"@, c@)
            &&& b.change is None ==> events::named(tags, "change"@).len() == 0
        },
        None => {
            &&& events::named(tags, "duration"@).len() == 0
            &&& events::named(tags, "billable_duration"@).len() == 0
            &&& events::named(tags, "cost"@).len() == 0
            &&& events::named(tags, "mint"@).len() == 0
            &&& events::named(tags, "unit"@).len() == 0
            &&& events::named(tags, "change"@).len() == 0
        },
    }
    &&& events::named(tags, "error"@).len() == r.result_errors@.len()
    &&& forall|i: int|
        0 <= i < r.result_errors@.len() ==> #[trigger] events::named(tags, "error"@)[i] == seq![
            "error"@,
            r.result_errors@[i]@,
        ]
}

/// The tags of a result are these and no others, in this order: the request, whoever sent it (unless
/// that is the worker itself), the status, the bill where there is one, and one tag for each error.
pub proof fn lemma_result_tags(
    e: Event,
    secret_key: Seq<char>,
    request_id: Seq<char>,
    requester: Seq<char>,
    r: WorkerJobResponse,
)
    requires
        states_result(e, secret_key, request_id, requester, r),
    ensures
        tells_result(e.tags.deep_view(), request_id, r),
        requester != e.pubkey@ ==> events::named(e.tags.deep_view(), "p"@) == tag("p"@, requester),
        requester == e.pubkey@ ==> events::named(e.tags.deep_view(), "p"@).len() == 0,
        events::in_order(result_names(), e.tags.deep_view()),
        forall|i: int|
            0 <= i < e.tags.deep_view().len() ==> is_result_tag(#[trigger] e.tags.deep_view()[i]),
{
    let tags = jobs::result_tags(request_id, requester, r);
    let author = e.pubkey@;
    lemma_plain_tags(request_id, requester, r);
    lemma_others_than_p();
    events::lemma_signing_keeps_the_recipient(tags, requester, author);
    events::lemma_signing_keeps_names(tags, author, "e"@);
    events::lemma_signing_keeps_names(tags, author, "status"@);
    events::lemma_signing_keeps_names(tags, author, "duration"@);
    events::lemma_signing_keeps_names(tags, author, "billable_duration"@);
    events::lemma_signing_keeps_names(tags, author, "cost"@);
    events::lemma_signing_keeps_names(tags, author, "mint"@);
    events::lemma_signing_keeps_names(tags, author, "unit"@);
    events::lemma_signing_keeps_names(tags, author, "change"@);
    events::lemma_signing_keeps_names(tags, author, "error"@);
    lemma_no_other_tags(e, secret_key, request_id, requester, r);
    lemma_plain_order(request_id, requester, r);
    events::lemma_signing_keeps_order(result_names(), tags, author);
}

proof fn lemma_plain_order(request_id: Seq<char>, requester: Seq<char>, r: WorkerJobResponse)
    ensures
        events::in_order(result_names(), jobs::result_tags(request_id, requester, r)),
{
    let names = result_names();
    let tags = jobs::result_tags(request_id, requester, r);
    let bill = jobs::optional_billing_tags(r.billing);
    lemma_names_differ();
    assert(names[0] == "e"@ && names[1] == "p"@ && names[2] == "status"@);
    assert(names[3] == "duration"@ && names[4] == "billable_duration"@ && names[5] == "cost"@);
    assert(names[6] == "mint"@ && names[7] == "unit"@ && names[8] == "change"@);
    assert(names[9] == "error"@);
    assert(bill.len() <= 6);
    assert forall|i: int| 0 <= i < tags.len() implies (#[trigger] tags[i])[0] == names[if i < 3
        + bill.len() {
        i
    } else {
        9
    }] by {
        if i >= 3 + bill.len() {
            assert(tags[i] == jobs::error_tags(r.result_errors@)[i - 3 - bill.len()]);
        } else if i >= 3 {
            assert(tags[i] == bill[i - 3]);
        }
    }
    assert forall|i: int, j: int| 0 <= i < j < tags.len() implies events::comes_first(
        names,
        #[trigger] tags[i],
        #[trigger] tags[j],
    ) by {
        let x = if i < 3 + bill.len() {
            i
        } else {
            9
        };
        let y = if j < 3 + bill.len() {
            j
        } else {
            9
        };
        assert(tags[i][0] == names[x] && tags[j][0] == names[y] && x <= y);
    }
}

proof fn lemma_no_other_tags(
    e: Event,
    secret_key: Seq<char>,
    request_id: Seq<char>,
    requester: Seq<char>,
    r: WorkerJobResponse,
)
    requires
        states_result(e, secret_key, request_id, requester, r),
    ensures
        forall|i: int|
            0 <= i < e.tags.deep_view().len() ==> is_result_tag(#[trigger] e.tags.deep_view()[i]),
{
    let tags = jobs::result_tags(request_id, requester, r);
    let kept = e.tags.deep_view();
    assert forall|i: int| 0 <= i < kept.len() implies is_result_tag(#[trigger] kept[i]) by {
        jobs::lemma_signed_tags(tags, e.pubkey@, kept[i]);
        assert(kept.contains(kept[i]));
        let j = choose|j: int| 0 <= j < tags.len() && tags[j] == kept[i];
        lemma_tag_has_name(request_id, requester, r, j);
    }
}

proof fn lemma_others_than_p()
    ensures
        "e"@ != "p"@,
        "status"@ != "p"@,
        "duration"@ != "p"@,
        "billable_duration"@ != "p"@,
        "cost"@ != "p"@,
        "mint"@ != "p"@,
        "unit"@ != "p"@,
        "change"@ != "p"@,
        "error"@ != "p"@,
{
    let names = result_names();
    lemma_names_differ();
    assert(names[0] == "e"@ && names[1] == "p"@ && names[2] == "status"@);
    assert(names[3] == "duration"@ && names[4] == "billable_duration"@ && names[5] == "cost"@);
    assert(names[6] == "mint"@ && names[7] == "unit"@ && names[8] == "change"@);
    assert(names[9] == "error"@);
}

proof fn lemma_tag_has_name(
    request_id: Seq<char>,
    requester: Seq<char>,
    r: WorkerJobResponse,
    i: int,
)
    requires
        0 <= i < jobs::result_tags(request_id, requester, r).len(),
    ensures
        is_result_tag(jobs::result_tags(request_id, requester, r)[i]),
{
    let names = result_names();
    let tags = jobs::result_tags(request_id, requester, r);
    let bill = jobs::optional_billing_tags(r.billing);
    let errors = jobs::error_tags(r.result_errors@);
    assert(names[0] == "e"@ && names[1] == "p"@ && names[2] == "status"@);
    assert(names[3] == "duration"@ && names[4] == "billable_duration"@ && names[5] == "cost"@);
    assert(names[6] == "mint"@ && names[7] == "unit"@ && names[8] == "change"@);
    assert(names[9] == "error"@);
    if i >= 3 + bill.len() {
        assert(tags[i] == errors[i - 3 - bill.len()]);
        assert(tags[i][0] == names[9]);
    } else if i >= 3 {
        assert(tags[i] == bill[i - 3]);
        assert(tags[i][0] == names[i]);
    } else {
        assert(tags[i][0] == names[i]);
    }
}

/// The tags before signing, by name.
proof fn lemma_plain_tags(request_id: Seq<char>, requester: Seq<char>, r: WorkerJobResponse)
    ensures
        tells_result(jobs::result_tags(request_id, requester, r), request_id, r),
        events::named(jobs::result_tags(request_id, requester, r), "p"@) == tag("p"@, requester),
{
    let names = result_names();
    lemma_names_differ();
    assert(names[0] == "e"@ && names[1] == "p"@ && names[2] == "status"@);
    assert(names[3] == "duration"@ && names[4] == "billable_duration"@ && names[5] == "cost"@);
    assert(names[6] == "mint"@ && names[7] == "unit"@ && names[8] == "change"@);
    assert(names[9] == "error"@);
    let none = Seq::<Seq<Seq<char>>>::empty();
    let head = seq![
        seq!["e"@, request_id],
        seq!["p"@, requester],
        seq!["status"@, jobs::status_text(r.status)],
    ];
    let bill = jobs::optional_billing_tags(r.billing);
    let errors = jobs::error_tags(r.result_errors@);
    assert forall|n: int| 0 <= n < 10 implies events::named(
        jobs::result_tags(request_id, requester, r),
        #[trigger] names[n],
    ) == events::named(head, names[n]) + events::named(bill, names[n]) + events::named(errors, names[n]) by {
        events::lemma_named_in_both(head + bill, errors, names[n]);
        events::lemma_named_in_both(head, bill, names[n]);
    }
    assert forall|n: int| 0 <= n < 10 implies #[trigger] events::named(errors, names[n]) == if n == 9 {
        errors
    } else {
        none
    } by {
        if n == 9 {
            events::lemma_all_named(errors, names[9]);
        } else {
            events::lemma_none_named(errors, names[n]);
        }
    }
    assert forall|n: int| 0 <= n < 10 implies #[trigger] events::named(head, names[n]) == if n < 3 {
        seq![head[n]]
    } else {
        none
    } by {
        lemma_named_at(head, names, 0, n);
    }
    assert forall|n: int| 0 <= n < 10 implies #[trigger] events::named(bill, names[n]) == if 3 <= n < 3
        + bill.len() {
        seq![bill[n - 3]]
    } else {
        none
    } by {
        lemma_named_at(bill, names, 3, n);
    }
    assert forall|n: int| 0 <= n < 9 implies #[trigger] events::named(
        jobs::result_tags(request_id, requester, r),
        names[n],
    ) == if n < 3 {
        seq![head[n]]
    } else if n < 3 + bill.len() {
        seq![bill[n - 3]]
    } else {
        none
    } by {
        assert(events::named(jobs::result_tags(request_id, requester, r), names[n]) =~= if n < 3 {
            seq![head[n]]
        } else if n < 3 + bill.len() {
            seq![bill[n - 3]]
        } else {
            none
        });
    }
    assert(events::named(jobs::result_tags(request_id, requester, r), names[9]) =~= errors);
}

/// Tags whose names come in the order of a list without repeats are found one by one.
proof fn lemma_named_at(
    tags: Seq<Seq<Seq<char>>>,
    names: Seq<Seq<char>>,
    from: int,
    n: int,
)
    requires
        0 <= from,
        from + tags.len() <= names.len(),
        0 <= n < names.len(),
        forall|i: int| 0 <= i < tags.len() ==> (#[trigger] tags[i]).len() > 0,
        forall|i: int| 0 <= i < tags.len() ==> (#[trigger] tags[i])[0] == names[from + i],
        forall|i: int, j: int|
            0 <= i < j < names.len() ==> #[trigger] names[i] != #[trigger] names[j],
    ensures
        events::named(tags, names[n]) == if from <= n < from + tags.len() {
            seq![tags[n - from]]
        } else {
            Seq::<Seq<Seq<char>>>::empty()
        },
    decreases tags.len(),
{
    reveal(Seq::filter);
    if tags.len() > 0 {
        let t = tags.drop_last();
        assert forall|i: int| 0 <= i < t.len() implies (#[trigger] t[i]).len() > 0 && t[i][0]
            == names[from + i] by {
            assert(t[i] == tags[i]);
        }
        lemma_named_at(t, names, from, n);
        let m = from + t.len();
        assert(tags.last() == tags[tags.len() - 1]);
        assert(tags.last()[0] == names[m]);
        if n == m {
            assert(events::named(tags, names[n]) =~= seq![tags[n - from]]);
        } else {
            assert(names[n] != names[m]);
            if from <= n < m {
                assert(t[n - from] == tags[n - from]);
            }
        }
    } else {
        assert(events::named(tags, names[n]) =~= Seq::<Seq<Seq<char>>>::empty());
    }
}

/// The content of a result says in JSON what became of the job: the status, the exit code, the time it
/// took and the end of its log, each once, and the bill where there is one. The errors are told by the
/// tags alone.
pub proof fn lemma_result_content(r: WorkerJobResponse)
    ensures
        ({
            let members = jobs::response_members(r);
            &&& events::values_of(members, "status"@) == seq![
                json::json_string(
                    match r.status {
                        JobStatus::Success => "success"@,
                        JobStatus::Failure => "failure"@,
                        JobStatus::Timeout => "timeout"@,
                        JobStatus::Invalid => "invalid"@,
                    },
                ),
            ]
            &&& r.exit_code matches Some(n) ==> events::values_of(members, "exit_code"@) == seq![
                number::signed_decimal(n as int),
            ]
            &&& r.exit_code is None ==> events::values_of(members, "exit_code"@) == seq!["null"@]
            &&& events::values_of(members, "elapsed_seconds"@) == seq![
                number::decimal(r.elapsed_seconds as nat),
            ]
            &&& events::values_of(members, "log_tail"@) == seq![json::json_string(r.log_tail@)]
            &&& r.billing matches Some(b) ==> members.len() == 5 && events::values_of(members, "billing"@)
                == seq![json::object_text(jobs::billing_members(b))]
            &&& r.billing is None ==> members.len() == 4
        }),
{
    lemma_response_names();
    let m = jobs::response_members(r);
    reveal_with_fuel(events::values_of, 6);
    let four = m.take(4);
    assert(four.drop_last() =~= m.take(3));
    assert(four.drop_last().drop_last() =~= m.take(2));
    assert(four.drop_last().drop_last().drop_last() =~= m.take(1));
    assert(four.drop_last().drop_last().drop_last().drop_last() =~= m.take(0));
    if r.billing is Some {
        assert(m.drop_last() =~= four);
    } else {
        assert(m =~= four);
    }
    let none = Seq::<Seq<char>>::empty();
    assert(events::values_of(m.take(0), "status"@) =~= none);
    assert(events::values_of(m.take(0), "exit_code"@) =~= none);
    assert(events::values_of(m.take(0), "elapsed_seconds"@) =~= none);
    assert(events::values_of(m.take(0), "log_tail"@) =~= none);
    assert(events::values_of(m.take(0), "billing"@) =~= none);
}

proof fn lemma_response_names()
    ensures
        "status"@ != "exit_code"@,
        "status"@ != "elapsed_seconds"@,
        "status"@ != "log_tail"@,
        "status"@ != "billing"@,
        "exit_code"@ != "elapsed_seconds"@,
        "exit_code"@ != "log_tail"@,
        "exit_code"@ != "billing"@,
        "elapsed_seconds"@ != "log_tail"@,
        "elapsed_seconds"@ != "billing"@,
        "log_tail"@ != "billing"@,
{
    reveal_strlit("status");
    reveal_strlit("exit_code");
    reveal_strlit("elapsed_seconds");
    reveal_strlit("log_tail");
    reveal_strlit("billing");
    assert("status"@.len() == 6 && "exit_code"@.len() == 9 && "elapsed_seconds"@.len() == 15);
    assert("log_tail"@.len() == 8 && "billing"@.len() == 7);
}

/// The bill in the content of a result has its numbers, the mint and the unit, each once, and the
/// change where there is some.
pub proof fn lemma_bill_content(b: JobBilling)
    ensures
        ({
            let members = jobs::billing_members(b);
            &&& events::values_of(members, "duration"@) == seq![number::decimal(b.duration as nat)]
            &&& events::values_of(members, "billable_duration"@) == seq![
                number::decimal(b.billable_duration as nat),
            ]
            &&& events::values_of(members, "cost"@) == seq![number::decimal(b.cost as nat)]
            &&& events::values_of(members, "mint"@) == seq![json::json_string(b.mint@)]
            &&& events::values_of(members, "unit"@) == seq![json::json_string(b.unit@)]
            &&& b.change matches Some(c) ==> members.len() == 6 && events::values_of(members, "change"@)
                == seq![json::json_string(c@)]
            &&& b.change is None ==> members.len() == 5
        }),
{
    let names = result_names();
    lemma_names_differ();
    assert(names[3] == "duration"@ && names[4] == "billable_duration"@ && names[5] == "cost"@);
    assert(names[6] == "mint"@ && names[7] == "unit"@ && names[8] == "change"@);
    let m = jobs::billing_members(b);
    reveal_with_fuel(events::values_of, 7);
    let five = m.take(5);
    assert(five.drop_last() =~= m.take(4));
    assert(five.drop_last().drop_last() =~= m.take(3));
    assert(five.drop_last().drop_last().drop_last() =~= m.take(2));
    assert(five.drop_last().drop_last().drop_last().drop_last() =~= m.take(1));
    assert(five.drop_last().drop_last().drop_last().drop_last().drop_last() =~= m.take(0));
    if b.change is Some {
        assert(m.drop_last() =~= five);
    } else {
        assert(m =~= five);
    }
    let none = Seq::<Seq<char>>::empty();
    assert(events::values_of(m.take(0), "duration"@) =~= none);
    assert(events::values_of(m.take(0), "billable_duration"@) =~= none);
    assert(events::values_of(m.take(0), "cost"@) =~= none);
    assert(events::values_of(m.take(0), "mint"@) =~= none);
    assert(events::values_of(m.take(0), "unit"@) =~= none);
    assert(events::values_of(m.take(0), "change"@) =~= none);
}

/// What a result event says can be found in its content as it is written: every member, with its name
/// and its value.
pub proof fn lemma_result_content_is_written(
    e: Event,
    secret_key: Seq<char>,
    request_id: Seq<char>,
    requester: Seq<char>,
    r: WorkerJobResponse,
)
    requires
        states_result(e, secret_key, request_id, requester, r),
    ensures
        search::contains_text(
            e.content@,
            events::member_text("elapsed_seconds"@, number::decimal(r.elapsed_seconds as nat)),
        ),
        search::contains_text(
            e.content@,
            events::member_text("log_tail"@, json::json_string(r.log_tail@)),
        ),
        r.billing matches Some(b) ==> search::contains_text(
            e.content@,
            events::member_text("billing"@, json::object_text(jobs::billing_members(b))),
        ),
{
    let m = jobs::response_members(r);
    events::lemma_members_are_written(m, 2);
    events::lemma_members_are_written(m, 3);
    if r.billing is Some {
        events::lemma_members_are_written(m, 4);
    }
}

} // verus!
