//! The controller's main loop: what comes first, what repeats, and what ends it.

use vstd::prelude::*;

use crate::config::WorkerPrice;
use crate::listener::{next_place, PoolController};
use crate::payments;
use crate::payments::{PaymentClient, PendingStep, WalletCommand};
use crate::wallet_output;

verus! {

/// What the controller does.
#[derive(Debug)]
pub enum RunStage {
    /// The wallet looks after what is pending: this command is run.
    CheckPending { commands: Vec<WalletCommand>, next: usize },
    /// The pool is reconciled with what is left of an earlier run.
    Reconcile,
    /// The worker of a slot is advertised, for the first time or again.
    Advertise { first: bool, slot: usize },
    /// Job requests are subscribed to.
    Subscribe,
    /// It is looked up whether the controller should stop.
    LookForShutdown,
    /// The pool is maintained.
    Maintain,
    /// It is looked up whether the workers have to be advertised again.
    LookForDue,
    /// The controller waits for an event, the next round or the end.
    Wait,
    /// An event is handled.
    Handle,
    /// The controller has stopped.
    Stopped { result: Result<(), String> },
}

/// What became of what the controller did.
#[derive(Debug)]
pub enum RunReply {
    /// It was done.
    Done,
    /// It could not be done.
    Failed(String),
    /// The answer is yes or no.
    Answer(bool),
    /// The time to wait is over, or there was a notification without an event.
    Woken,
    /// An event came in.
    EventArrived,
    /// The signal to stop was touched: this is what it says now.
    Signal(bool),
}

/// Whether a reply is one that the stage can get.
pub open spec fn reply_fits_run(stage: RunStage, reply: RunReply) -> bool {
    match stage {
        RunStage::LookForShutdown => reply is Answer,
        RunStage::LookForDue => reply is Answer,
        RunStage::Wait => reply is Woken || reply is EventArrived || reply is Signal,
        _ => reply is Done || reply is Failed,
    }
}

/// Whether the loop begins like this: with the first of the commands that let the wallet look after
/// what is pending or, where there is none, with the reconciliation.
pub open spec fn is_run_start(prices: Seq<WorkerPrice>, stage: RunStage) -> bool {
    match stage {
        RunStage::CheckPending { commands, next } => {
            &&& next == 0
            &&& commands@.len() > 0
            &&& payments::are_pending_commands(prices, commands@)
        },
        RunStage::Reconcile => prices.len() == 0,
        _ => false,
    }
}

/// Whether the slots from `slot` on are advertised or, where there is none left, what comes behind: the
/// subscription for the first time, and a wait later.
pub open spec fn advertises_from(slots: nat, first: bool, slot: nat, next: RunStage) -> bool {
    if slot < slots {
        next matches RunStage::Advertise { first: f, slot: s } && f == first && s == slot
    } else if first {
        next is Subscribe
    } else {
        next is Wait
    }
}

/// The stage that follows, in a pool with so many slots. Only a wallet command or a reconciliation that
/// fails, and the signal to stop, end the loop: whatever else fails is done again in the next round.
pub open spec fn is_run_step(
    slots: nat,
    stage: RunStage,
    reply: RunReply,
    next: RunStage,
) -> bool {
    match stage {
        RunStage::CheckPending { commands, next: i } => match reply {
            RunReply::Done => if i + 1 < commands@.len() {
                next matches RunStage::CheckPending { commands: c, next: j } && c == commands && j
                    == i + 1
            } else {
                next is Reconcile
            },
            RunReply::Failed(m) => next matches RunStage::Stopped { result } && result
                == Err::<(), String>(m),
            _ => next == stage,
        },
        RunStage::Reconcile => match reply {
            RunReply::Failed(m) => next matches RunStage::Stopped { result } && result
                == Err::<(), String>(m),
            _ => advertises_from(slots, true, 0, next),
        },
        RunStage::Advertise { first, slot } => advertises_from(
            slots,
            first,
            (slot + 1) as nat,
            next,
        ),
        RunStage::Subscribe => next is LookForShutdown,
        RunStage::LookForShutdown => match reply {
            RunReply::Answer(yes) if yes => next matches RunStage::Stopped { result }
                && result is Ok,
            _ => next is Maintain,
        },
        RunStage::Maintain => next is LookForDue,
        RunStage::LookForDue => match reply {
            RunReply::Answer(yes) if yes => advertises_from(slots, false, 0, next),
            _ => next is Wait,
        },
        RunStage::Wait => match reply {
            RunReply::EventArrived => next is Handle,
            RunReply::Signal(yes) if yes => next matches RunStage::Stopped { result }
                && result is Ok,
            _ => next is LookForShutdown,
        },
        RunStage::Handle => next is LookForShutdown,
        RunStage::Stopped { .. } => next == stage,
    }
}

impl PoolController {
    /// Begins the main loop: before anything else, the wallet looks after what is pending in every
    /// configured unit.
    pub fn run(&self, client: &PaymentClient) -> (r: RunStage)
        ensures
            is_run_start(self.config.worker_prices@, r),
    {
        let commands = client.check_pending_for_prices(self.config.worker_prices.as_slice());
        if commands.len() > 0 {
            RunStage::CheckPending { commands, next: 0 }
        } else {
            proof {
                let prices = self.config.worker_prices@;
                if prices.len() > 0 {
                    assert(wallet_output::is_unit_of(prices, prices[0].unit@));
                }
            }
            RunStage::Reconcile
        }
    }

    /// What the loop is told of a wallet command: whether it succeeded, or why not.
    pub fn pending_reply(step: &PendingStep) -> (r: RunReply)
        ensures
            match *step {
                PendingStep::Done { result: Err(e) } => r matches RunReply::Failed(m) && m@
                    == payments::command_error_text(e),
                _ => r is Done,
            },
    {
        match step {
            PendingStep::Done { result } => match result {
                Err(e) => RunReply::Failed(e.message()),
                Ok(_) => RunReply::Done,
            },
            PendingStep::Run { .. } => RunReply::Done,
        }
    }

    fn advertise_from(&self, first: bool, slot: usize) -> (r: RunStage)
        ensures
            advertises_from(self.config.max_concurrent_jobs as nat, first, slot as nat, r),
    {
        if slot < self.config.max_concurrent_jobs {
            RunStage::Advertise { first, slot }
        } else if first {
            RunStage::Subscribe
        } else {
            RunStage::Wait
        }
    }

    /// Goes on with the main loop.
    pub fn resume_run(&self, stage: RunStage, reply: RunReply) -> (r: RunStage)
        ensures
            is_run_step(self.config.max_concurrent_jobs as nat, stage, reply, r),
    {
        match stage {
            RunStage::CheckPending { commands, next } => match reply {
                RunReply::Done => {
                    assert(commands.len() <= usize::MAX);
                    if next < commands.len() && next + 1 < commands.len() {
                        RunStage::CheckPending { commands, next: next + 1 }
                    } else {
                        RunStage::Reconcile
                    }
                },
                RunReply::Failed(m) => RunStage::Stopped { result: Err(m) },
                _ => RunStage::CheckPending { commands, next },
            },
            RunStage::Reconcile => match reply {
                RunReply::Failed(m) => RunStage::Stopped { result: Err(m) },
                _ => self.advertise_from(true, 0),
            },
            RunStage::Advertise { first, slot } => {
                let from: usize = next_place(slot, self.config.max_concurrent_jobs);
                self.advertise_from(first, from)
            },
            RunStage::Subscribe => RunStage::LookForShutdown,
            RunStage::LookForShutdown => match reply {
                RunReply::Answer(yes) => if yes {
                    RunStage::Stopped { result: Ok(()) }
                } else {
                    RunStage::Maintain
                },
                _ => RunStage::Maintain,
            },
            RunStage::Maintain => RunStage::LookForDue,
            RunStage::LookForDue => match reply {
                RunReply::Answer(yes) => if yes {
                    self.advertise_from(false, 0)
                } else {
                    RunStage::Wait
                },
                _ => RunStage::Wait,
            },
            RunStage::Wait => match reply {
                RunReply::EventArrived => RunStage::Handle,
                RunReply::Signal(yes) => if yes {
                    RunStage::Stopped { result: Ok(()) }
                } else {
                    RunStage::LookForShutdown
                },
                _ => RunStage::LookForShutdown,
            },
            RunStage::Handle => RunStage::LookForShutdown,
            RunStage::Stopped { result } => RunStage::Stopped { result },
        }
    }
}

/// The loop stops for three reasons only: a wallet command at the start failed, the reconciliation
/// failed, or the controller was told to stop. It reports the failure in the first two cases, and none
/// in the third.
pub proof fn lemma_what_stops_the_loop(
    slots: nat,
    stage: RunStage,
    reply: RunReply,
    next: RunStage,
)
    requires
        !(stage is Stopped),
        reply_fits_run(stage, reply),
        is_run_step(slots, stage, reply, next),
    ensures
        next matches RunStage::Stopped { result } ==> {
            ||| stage is CheckPending && (reply matches RunReply::Failed(m) && result == Err::<
                (),
                String,
            >(m))
            ||| stage is Reconcile && (reply matches RunReply::Failed(m) && result == Err::<
                (),
                String,
            >(m))
            ||| stage is LookForShutdown && reply == RunReply::Answer(true) && result is Ok
            ||| stage is Wait && reply == RunReply::Signal(true) && result is Ok
        },
        reply == RunReply::Signal(true) ==> next is Stopped,
{
}

/// The pool is maintained between any two waits: a controller that waits has looked whether it
/// should stop, and has maintained the pool, since it last waited.
pub proof fn lemma_rounds_maintain_the_pool(
    slots: nat,
    stage: RunStage,
    reply: RunReply,
    next: RunStage,
)
    requires
        !(stage is Stopped),
        reply_fits_run(stage, reply),
        is_run_step(slots, stage, reply, next),
    ensures
        next is Maintain ==> stage is LookForShutdown,
        next is LookForDue ==> stage is Maintain,
        next is Wait ==> stage is LookForDue || (stage matches RunStage::Advertise { first, .. }
            && !first),
        next matches RunStage::Advertise { first, slot } ==> (!first && slot == 0
            ==> stage is LookForDue),
        stage is Wait ==> !(next is Wait),
{
}

/// No slot is left out when the workers are advertised: the slots come in order from the first one on,
/// whatever fails, and nothing else comes before the last one is advertised.
pub proof fn lemma_every_slot_is_advertised(
    slots: nat,
    stage: RunStage,
    reply: RunReply,
    next: RunStage,
)
    requires
        is_run_step(slots, stage, reply, next),
    ensures
        next matches RunStage::Advertise { slot, .. } ==> (slot == 0 || (
        stage matches RunStage::Advertise { slot: s, .. } && slot == s + 1)),
        stage matches RunStage::Advertise { first, slot } ==> ((
        next matches RunStage::Advertise { first: f, slot: s } && f == first && s == slot + 1)
            || slot + 1 >= slots),
{
}

/// Whether the loop went through these stages, with these replies.
pub open spec fn is_run(
    prices: Seq<WorkerPrice>,
    slots: nat,
    stages: Seq<RunStage>,
    replies: Seq<RunReply>,
) -> bool {
    &&& stages.len() == replies.len() + 1
    &&& is_run_start(prices, stages[0])
    &&& forall|k: int|
        0 <= k < replies.len() ==> is_run_step(
            slots,
            #[trigger] stages[k],
            replies[k],
            stages[k + 1],
        )
}

/// Whether the command at `place` was run at the moment `k`, and succeeded.
pub open spec fn succeeds_at(
    stages: Seq<RunStage>,
    replies: Seq<RunReply>,
    commands: Seq<WalletCommand>,
    place: int,
    k: int,
) -> bool {
    &&& 0 <= k < replies.len()
    &&& stages[k] matches RunStage::CheckPending { commands: c, next } && c@ == commands && next
        == place
    &&& replies[k] is Done
}

/// Whether the command at `place` was run before the moment `k`, and succeeded.
pub open spec fn succeeds_before(
    stages: Seq<RunStage>,
    replies: Seq<RunReply>,
    commands: Seq<WalletCommand>,
    place: int,
    k: int,
) -> bool {
    exists|i: int| i < k && #[trigger] succeeds_at(stages, replies, commands, place, i)
}

/// How many of the commands have succeeded when the loop comes to a stage.
pub open spec fn commands_done(commands: Seq<WalletCommand>, stage: RunStage) -> int {
    match stage {
        RunStage::CheckPending { next, .. } => next as int,
        _ => commands.len() as int,
    }
}

/// The commands that the loop begins with.
pub open spec fn commands_at_start(stage: RunStage) -> Seq<WalletCommand> {
    match stage {
        RunStage::CheckPending { commands, .. } => commands@,
        _ => seq![],
    }
}

/// What is known when the loop has come to the moment `k`: it has stopped with a failure, or the
/// commands before the present one have succeeded, each at one earlier moment.
proof fn lemma_commands_before(
    prices: Seq<WorkerPrice>,
    slots: nat,
    stages: Seq<RunStage>,
    replies: Seq<RunReply>,
    k: int,
)
    requires
        is_run(prices, slots, stages, replies),
        0 <= k < stages.len(),
    ensures
        ({
            let commands = commands_at_start(stages[0]);
            ||| stages[k] matches RunStage::Stopped { result } && result is Err
            ||| {
                &&& stages[k] matches RunStage::CheckPending { commands: c, next } ==> c@
                    == commands && next < commands.len()
                &&& forall|place: int|
                    0 <= place < commands_done(commands, stages[k]) ==> #[trigger] succeeds_before(
                        stages,
                        replies,
                        commands,
                        place,
                        k,
                    )
            }
        }),
    decreases k,
{
    let commands = commands_at_start(stages[0]);
    if k > 0 {
        let j = k - 1;
        lemma_commands_before(prices, slots, stages, replies, j);
        assert(is_run_step(slots, stages[j], replies[j], stages[j + 1]));
        if !(stages[j] matches RunStage::Stopped { result } && result is Err) {
            if stages[j] is CheckPending && replies[j] is Done {
                let done = commands_done(commands, stages[j]);
                assert(succeeds_at(stages, replies, commands, done, j));
            }
            if !(stages[k] matches RunStage::Stopped { result } && result is Err) {
                assert forall|place: int|
                    0 <= place < commands_done(
                        commands,
                        stages[k],
                    ) implies #[trigger] succeeds_before(stages, replies, commands, place, k) by {
                    if place < commands_done(commands, stages[j]) {
                        assert(succeeds_before(stages, replies, commands, place, j));
                        let i = choose|i: int|
                            i < j && #[trigger] succeeds_at(stages, replies, commands, place, i);
                        assert(succeeds_at(stages, replies, commands, place, i));
                    } else {
                        assert(succeeds_at(stages, replies, commands, place, j));
                    }
                }
            }
        }
    }
}

/// A command that has succeeded is not run again.
proof fn lemma_commands_go_on(
    prices: Seq<WorkerPrice>,
    slots: nat,
    stages: Seq<RunStage>,
    replies: Seq<RunReply>,
    i: int,
    k: int,
)
    requires
        is_run(prices, slots, stages, replies),
        0 <= i < k < stages.len(),
        stages[i] is CheckPending,
        replies[i] is Done,
    ensures
        stages[k] matches RunStage::CheckPending { next, .. } ==> next > stages[i]->next,
    decreases k,
{
    let j = k - 1;
    assert(is_run_step(slots, stages[j], replies[j], stages[j + 1]));
    if i < j {
        lemma_commands_go_on(prices, slots, stages, replies, i, j);
    }
}

/// No event is handled before the wallet has looked after what is pending: when the loop handles an
/// event, the command of every configured unit has been run and has succeeded, at one moment and no
/// other.
pub proof fn lemma_pending_is_checked_before_events(
    prices: Seq<WorkerPrice>,
    slots: nat,
    stages: Seq<RunStage>,
    replies: Seq<RunReply>,
    k: int,
    unit: Seq<char>,
)
    requires
        is_run(prices, slots, stages, replies),
        0 <= k < stages.len(),
        stages[k] is Handle,
        wallet_output::is_unit_of(prices, unit),
    ensures
        ({
            let commands = commands_at_start(stages[0]);
            exists|place: int, i: int|
                {
                    &&& 0 <= place < commands.len()
                    &&& payments::is_command(
                        commands[place],
                        unit,
                        seq!["check-pending"@],
                        None,
                    )
                    &&& i < k
                    &&& #[trigger] succeeds_at(stages, replies, commands, place, i)
                    &&& forall|j: int|
                        #[trigger] succeeds_at(stages, replies, commands, place, j) ==> j == i
                }
        }),
{
    let commands = commands_at_start(stages[0]);
    lemma_commands_before(prices, slots, stages, replies, k);
    assert(prices.len() > 0);
    assert(payments::are_pending_commands(prices, commands));
    let place = choose|place: int|
        0 <= place < commands.len() && (#[trigger] commands[place]).unit@ == unit;
    assert(succeeds_before(stages, replies, commands, place, k));
    let i = choose|i: int| i < k && #[trigger] succeeds_at(stages, replies, commands, place, i);
    assert forall|j: int| #[trigger] succeeds_at(stages, replies, commands, place, j) implies j
        == i by {
        if i < j {
            lemma_commands_go_on(prices, slots, stages, replies, i, j);
        }
        if j < i {
            lemma_commands_go_on(prices, slots, stages, replies, j, i);
        }
    }
}

} // verus!
