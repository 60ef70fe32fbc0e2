//! The load tester: many scripted clients connect to the chat server at
//! once, each sends a nickname and a few numbered messages, and the run is
//! summed up at the end.

use vstd::prelude::*;
use crate::text::{
    parse_usize, push_decimal, push_zero_padded, spec_decimal, spec_parse_usize, spec_zero_padded,
};

verus! {

/// The tunable numbers of one kind of load test.
#[derive(Clone, Copy, Debug)]
pub struct StressProfile {
    /// Clients started when the command line names no number.
    pub default_clients: usize,
    /// Messages per client when the command line names no number.
    pub default_messages: usize,
    /// Connection attempts per client.
    pub retries: usize,
    /// The wait after the k-th failed attempt is k times this, in ms.
    pub backoff_ms: u64,
    /// After every this many started clients the launcher pauses and
    /// reports progress.
    pub batch_size: usize,
    /// Length of that pause, in ms.
    pub batch_gap_ms: u64,
    /// Client `i` waits `(i % stagger_period) * stagger_step_ms` ms before
    /// its first message.
    pub stagger_period: usize,
    pub stagger_step_ms: u64,
    /// Wait between two messages of one client, in ms.
    pub message_interval_ms: u64,
    /// How long a client keeps reading after its last message, in ms.
    pub hold_ms: u64,
}

impl StressProfile {
    /// The numbers are usable: batches and stagger periods are not empty,
    /// and no wait overflows.
    pub open spec fn valid(&self) -> bool {
        &&& self.batch_size > 0
        &&& self.stagger_period > 0
        &&& self.stagger_period * self.stagger_step_ms <= u64::MAX
        &&& self.backoff_ms * self.retries <= u64::MAX
    }

    /// Whether the numbers are usable.
    pub fn is_valid(&self) -> (b: bool)
        ensures
            b == self.valid(),
    {
        self.batch_size > 0 && self.stagger_period > 0 && (self.stagger_period as u64).checked_mul(
            self.stagger_step_ms,
        ).is_some() && self.backoff_ms.checked_mul(self.retries as u64).is_some()
    }

    /// The baseline test: 500 clients of 5 messages, started in batches of
    /// 50 with 50 ms between batches, 5 connection attempts 200 ms apart
    /// and growing, first messages spread over 500 ms, 3 s of reading at
    /// the end.
    pub fn standard() -> (p: StressProfile)
        ensures
            p == (StressProfile {
                default_clients: 500,
                default_messages: 5,
                retries: 5,
                backoff_ms: 200,
                batch_size: 50,
                batch_gap_ms: 50,
                stagger_period: 100,
                stagger_step_ms: 5,
                message_interval_ms: 10,
                hold_ms: 3000,
            }),
            p.valid(),
    {
        StressProfile {
            default_clients: 500,
            default_messages: 5,
            retries: 5,
            backoff_ms: 200,
            batch_size: 50,
            batch_gap_ms: 50,
            stagger_period: 100,
            stagger_step_ms: 5,
            message_interval_ms: 10,
            hold_ms: 3000,
        }
    }

    /// The extended test: 1000 clients of 5 messages, started in batches
    /// of 100 with 80 ms between batches, 7 connection attempts 150 ms apart
    /// and growing, first messages spread over a second, 5 s of reading at
    /// the end.
    pub fn extended() -> (p: StressProfile)
        ensures
            p == (StressProfile {
                default_clients: 1000,
                default_messages: 5,
                retries: 7,
                backoff_ms: 150,
                batch_size: 100,
                batch_gap_ms: 80,
                stagger_period: 1000,
                stagger_step_ms: 1,
                message_interval_ms: 10,
                hold_ms: 5000,
            }),
            p.valid(),
    {
        StressProfile {
            default_clients: 1000,
            default_messages: 5,
            retries: 7,
            backoff_ms: 150,
            batch_size: 100,
            batch_gap_ms: 80,
            stagger_period: 1000,
            stagger_step_ms: 1,
            message_interval_ms: 10,
            hold_ms: 5000,
        }
    }
}

/// What a test run is asked to do.
pub struct StressSettings {
    pub clients: usize,
    pub messages: usize,
    pub server: String,
}

/// The number the command-line argument at `index` gives, or `default`
/// when it is missing or not a number.
pub open spec fn numeric_arg(args: Seq<String>, index: int, default: usize) -> usize {
    if index < args.len() {
        match spec_parse_usize(args[index]@) {
            Some(n) => n,
            None => default,
        }
    } else {
        default
    }
}

/// Reads the command line: number of clients, messages per client and
/// server address, each after the program name and each optional.
pub fn settings_from_args(profile: &StressProfile, args: &Vec<String>) -> (s: StressSettings)
    ensures
        s.clients == numeric_arg(args@, 1, profile.default_clients),
        s.messages == numeric_arg(args@, 2, profile.default_messages),
        s.server@ == if args@.len() > 3 { args@[3]@ } else { "127.0.0.1:8080"@ },
{
    let clients = if args.len() > 1 {
        match parse_usize(args[1].as_str()) {
            Some(n) => n,
            None => profile.default_clients,
        }
    } else {
        profile.default_clients
    };
    let messages = if args.len() > 2 {
        match parse_usize(args[2].as_str()) {
            Some(n) => n,
            None => profile.default_messages,
        }
    } else {
        profile.default_messages
    };
    let server = if args.len() > 3 { args[3].clone() } else { String::from_str("127.0.0.1:8080") };
    StressSettings { clients, messages, server }
}

/// `client_` and the client's number, zero-padded to four digits.
pub open spec fn client_name(i: nat) -> Seq<char> {
    "client_"@ + spec_zero_padded(i, 4)
}

/// The nickname line client `i` sends first.
pub open spec fn nick_line_text(i: nat) -> Seq<char> {
    client_name(i) + "\n"@
}

/// The `j`-th message line of client `i`.
pub open spec fn message_line_text(i: nat, j: nat) -> Seq<char> {
    client_name(i) + " 메시지 #"@ + spec_decimal(j) + "\n"@
}

/// The nickname line of client `i`.
pub fn nick_line(i: usize) -> (l: String)
    ensures
        l@ == nick_line_text(i as nat),
{
    let mut l = String::from_str("client_");
    push_zero_padded(&mut l, i as u64, 4);
    l.append("\n");
    l
}

/// The `j`-th message line of client `i`.
pub fn message_line(i: usize, j: usize) -> (l: String)
    ensures
        l@ == message_line_text(i as nat, j as nat),
{
    let mut l = String::from_str("client_");
    push_zero_padded(&mut l, i as u64, 4);
    l.append(" 메시지 #");
    push_decimal(&mut l, j as u64);
    l.append("\n");
    l
}

/// How long client `i` waits before its first message, in ms.
pub fn stagger_ms(profile: &StressProfile, i: usize) -> (ms: u64)
    requires
        profile.valid(),
    ensures
        ms == (i % profile.stagger_period) * profile.stagger_step_ms,
{
    let r = (i % profile.stagger_period) as u64;
    assert(r * profile.stagger_step_ms <= profile.stagger_period * profile.stagger_step_ms)
        by (nonlinear_arith)
        requires
            r < profile.stagger_period,
    ;
    r * profile.stagger_step_ms
}

/// Whether the launcher pauses and reports progress after starting
/// client `i`: after every full batch.
pub fn ends_batch(profile: &StressProfile, i: usize) -> (b: bool)
    requires
        profile.valid(),
        i < usize::MAX,
    ensures
        b == ((i + 1) % (profile.batch_size as int) == 0),
{
    (i + 1) % profile.batch_size == 0
}

/// The progress report: clients connected so far out of all, and failures.
pub fn progress_line(connected: usize, clients: usize, failed: usize) -> (l: String)
    ensures
        l@ == "  → "@ + spec_decimal(connected as nat) + "/"@ + spec_decimal(clients as nat)
            + " 연결 완료 (실패: "@ + spec_decimal(failed as nat) + ")"@,
{
    let mut l = String::from_str("  → ");
    push_decimal(&mut l, connected as u64);
    l.append("/");
    push_decimal(&mut l, clients as u64);
    l.append(" 연결 완료 (실패: ");
    push_decimal(&mut l, failed as u64);
    l.append(")");
    l
}

/// How many deliveries the run would see if every client read every other
/// client's messages: each message sent reaches all clients but its
/// author (server notices are not counted).
pub fn expected_deliveries(sent: usize, clients: usize) -> (n: usize)
    requires
        sent * (if clients > 0 { clients - 1 } else { 0 }) <= usize::MAX,
    ensures
        n == sent * (if clients > 0 { clients - 1 } else { 0 }),
{
    sent * clients.saturating_sub(1)
}

/// What a connecting client does next.
#[derive(Clone, Copy, Debug, PartialEq, Eq, Structural)]
pub enum ConnectStep {
    /// Try to connect now.
    Attempt,
    /// Wait this many ms, then try again.
    Wait(u64),
    /// Stop trying: the client failed to connect.
    GiveUp,
}

/// Connection attempts of one client: up to `retries` attempts, the wait
/// after the k-th failure being k times the back-off.
pub struct ConnectRetry {
    made: usize,
    retries: usize,
    backoff_ms: u64,
}

impl ConnectRetry {
    /// Attempts stay within the allowance and no wait overflows.
    #[verifier::type_invariant]
    spec fn within_allowance(self) -> bool {
        self.made <= self.retries && self.backoff_ms * self.retries <= u64::MAX
    }

    /// Attempts made so far.
    pub closed spec fn made(&self) -> nat {
        self.made as nat
    }

    /// Attempts allowed.
    pub closed spec fn retries(&self) -> nat {
        self.retries as nat
    }

    /// The back-off step, in ms.
    pub closed spec fn backoff(&self) -> nat {
        self.backoff_ms as nat
    }

    /// Starts connecting: the first attempt, unless no attempt is allowed.
    pub fn start(retries: usize, backoff_ms: u64) -> (r: (ConnectRetry, ConnectStep))
        requires
            backoff_ms * retries <= u64::MAX,
        ensures
            r.0.retries() == retries,
            r.0.backoff() == backoff_ms,
            retries > 0 ==> r.1 == ConnectStep::Attempt && r.0.made() == 1,
            retries == 0 ==> r.1 == ConnectStep::GiveUp && r.0.made() == 0,
            r.0.made() <= r.0.retries(),
    {
        if retries > 0 {
            (ConnectRetry { made: 1, retries, backoff_ms }, ConnectStep::Attempt)
        } else {
            (ConnectRetry { made: 0, retries, backoff_ms }, ConnectStep::GiveUp)
        }
    }

    /// The attempt just made failed: wait and try again while attempts are
    /// left, else give up.
    pub fn failed(&mut self) -> (step: ConnectStep)
        ensures
            final(self).retries() == old(self).retries(),
            final(self).backoff() == old(self).backoff(),
            final(self).made() <= final(self).retries(),
            old(self).made() < old(self).retries() ==> {
                &&& step == ConnectStep::Wait((old(self).backoff() * old(self).made()) as u64)
                &&& final(self).made() == old(self).made() + 1
            },
            old(self).made() == old(self).retries() ==> step == ConnectStep::GiveUp
                && final(self).made() == old(self).made(),
    {
        proof {
            use_type_invariant(&*self);
        }
        if self.made < self.retries {
            assert(self.backoff_ms * self.made <= self.backoff_ms * self.retries) by (nonlinear_arith)
                requires
                    self.made <= self.retries,
            ;
            let wait = self.backoff_ms * (self.made as u64);
            self.made = self.made + 1;
            ConnectStep::Wait(wait)
        } else {
            ConnectStep::GiveUp
        }
    }
}

/// Where a scripted client stands.
#[derive(Clone, Copy, Debug, PartialEq, Eq, Structural)]
pub enum ClientStage {
    /// Nothing done yet.
    Greeting,
    /// The nickname line was handed out for writing.
    NickWritten,
    /// The reader was started.
    Listening,
    /// Ready to send message `j`.
    Ready(usize),
    /// Message `j` was handed out for writing.
    MessageWritten(usize),
    /// Reading what comes back before stopping.
    Holding,
    /// Finished.
    Done,
}

/// What a scripted client does next.
pub enum ClientAction {
    /// Write this line to the server and report whether it went through.
    Write(String),
    /// Start the task that counts incoming lines.
    StartReceiver,
    /// Wait this many ms.
    Sleep(u64),
    /// A message went through: count it as sent, then wait this many ms.
    CountSent(u64),
    /// Stop the counting task; the client is finished.
    StopReceiver,
    /// The client is finished.
    Stop,
}

/// The mathematical content of a [`ClientAction`].
pub enum ClientActionView {
    Write(Seq<char>),
    StartReceiver,
    Sleep(u64),
    CountSent(u64),
    StopReceiver,
    Stop,
}

impl View for ClientAction {
    type V = ClientActionView;

    open spec fn view(&self) -> ClientActionView {
        match self {
            ClientAction::Write(l) => ClientActionView::Write(l@),
            ClientAction::StartReceiver => ClientActionView::StartReceiver,
            ClientAction::Sleep(ms) => ClientActionView::Sleep(*ms),
            ClientAction::CountSent(ms) => ClientActionView::CountSent(*ms),
            ClientAction::StopReceiver => ClientActionView::StopReceiver,
            ClientAction::Stop => ClientActionView::Stop,
        }
    }
}

/// The fixed part of a client's script.
pub struct ClientPlan {
    /// The client's number.
    pub index: usize,
    /// Messages to send.
    pub messages: usize,
    /// Wait before the first message, in ms.
    pub stagger_ms: u64,
    /// Wait after each message, in ms.
    pub interval_ms: u64,
    /// Reading time after the last message, in ms.
    pub hold_ms: u64,
}

/// The next stage and action of a client at `stage`; `ok` tells whether
/// the last write went through.
pub open spec fn spec_client_next(plan: ClientPlan, stage: ClientStage, ok: bool) -> (
    ClientStage,
    ClientActionView,
) {
    match stage {
        ClientStage::Greeting => (
            ClientStage::NickWritten,
            ClientActionView::Write(nick_line_text(plan.index as nat)),
        ),
        ClientStage::NickWritten => if ok {
            (ClientStage::Listening, ClientActionView::StartReceiver)
        } else {
            (ClientStage::Done, ClientActionView::Stop)
        },
        ClientStage::Listening => (ClientStage::Ready(0), ClientActionView::Sleep(plan.stagger_ms)),
        ClientStage::Ready(j) => if j < plan.messages {
            (
                ClientStage::MessageWritten(j),
                ClientActionView::Write(message_line_text(plan.index as nat, j as nat)),
            )
        } else {
            (ClientStage::Holding, ClientActionView::Sleep(plan.hold_ms))
        },
        ClientStage::MessageWritten(j) => if ok {
            (ClientStage::Ready((j + 1) as usize), ClientActionView::CountSent(plan.interval_ms))
        } else {
            (ClientStage::Holding, ClientActionView::Sleep(plan.hold_ms))
        },
        ClientStage::Holding => (ClientStage::Done, ClientActionView::StopReceiver),
        ClientStage::Done => (ClientStage::Done, ClientActionView::Stop),
    }
}

/// Stages a client can reach: the message counter never passes the number
/// of messages, and a message in flight is one of them.
pub open spec fn stage_in_plan(plan: ClientPlan, stage: ClientStage) -> bool {
    match stage {
        ClientStage::Ready(j) => j <= plan.messages,
        ClientStage::MessageWritten(j) => j < plan.messages,
        _ => true,
    }
}

/// One scripted load-testing client.
pub struct ClientScript {
    plan: ClientPlan,
    stage: ClientStage,
}

impl ClientScript {
    /// The client stays within its plan.
    #[verifier::type_invariant]
    spec fn follows_plan(self) -> bool {
        stage_in_plan(self.plan, self.stage)
    }

    /// The fixed part of the script.
    pub closed spec fn plan(&self) -> ClientPlan {
        self.plan
    }

    /// Where the client stands.
    pub closed spec fn stage(&self) -> ClientStage {
        self.stage
    }

    /// The script of client `index` of a run under `profile` that sends
    /// `messages` messages per client.
    pub fn new(profile: &StressProfile, index: usize, messages: usize) -> (c: ClientScript)
        requires
            profile.valid(),
        ensures
            c.plan() == (ClientPlan {
                index,
                messages,
                stagger_ms: ((index % profile.stagger_period) * profile.stagger_step_ms) as u64,
                interval_ms: profile.message_interval_ms,
                hold_ms: profile.hold_ms,
            }),
            c.stage() == ClientStage::Greeting,
    {
        let plan = ClientPlan {
            index,
            messages,
            stagger_ms: stagger_ms(profile, index),
            interval_ms: profile.message_interval_ms,
            hold_ms: profile.hold_ms,
        };
        ClientScript { plan, stage: ClientStage::Greeting }
    }

    /// The next action; `ok` tells whether the last write went through (it
    /// is read only right after a write).
    pub fn next(&mut self, ok: bool) -> (a: ClientAction)
        ensures
            stage_in_plan(old(self).plan(), old(self).stage()),
            final(self).plan() == old(self).plan(),
            (final(self).stage(), a@) == spec_client_next(old(self).plan(), old(self).stage(), ok),
            stage_in_plan(final(self).plan(), final(self).stage()),
    {
        proof {
            use_type_invariant(&*self);
        }
        match self.stage {
            ClientStage::Greeting => {
                self.stage = ClientStage::NickWritten;
                ClientAction::Write(nick_line(self.plan.index))
            },
            ClientStage::NickWritten => {
                if ok {
                    self.stage = ClientStage::Listening;
                    ClientAction::StartReceiver
                } else {
                    self.stage = ClientStage::Done;
                    ClientAction::Stop
                }
            },
            ClientStage::Listening => {
                self.stage = ClientStage::Ready(0);
                ClientAction::Sleep(self.plan.stagger_ms)
            },
            ClientStage::Ready(j) => {
                if j < self.plan.messages {
                    self.stage = ClientStage::MessageWritten(j);
                    ClientAction::Write(message_line(self.plan.index, j))
                } else {
                    self.stage = ClientStage::Holding;
                    ClientAction::Sleep(self.plan.hold_ms)
                }
            },
            ClientStage::MessageWritten(j) => {
                if ok {
                    self.stage = ClientStage::Ready(j + 1);
                    ClientAction::CountSent(self.plan.interval_ms)
                } else {
                    self.stage = ClientStage::Holding;
                    ClientAction::Sleep(self.plan.hold_ms)
                }
            },
            ClientStage::Holding => {
                self.stage = ClientStage::Done;
                ClientAction::StopReceiver
            },
            ClientStage::Done => ClientAction::Stop,
        }
    }
}

/// A client counts a message as sent only right after writing that very
/// message, one at a time and in order, and never more messages than its
/// plan holds: every step keeps the client within its plan, and a
/// `CountSent` step moves from message `j` in flight to message `j + 1`.
pub proof fn lemma_client_counts_in_order(plan: ClientPlan, stage: ClientStage, ok: bool)
    requires
        stage_in_plan(plan, stage),
    ensures
        stage_in_plan(plan, spec_client_next(plan, stage, ok).0),
        spec_client_next(plan, stage, ok).1 is CountSent ==> {
            &&& stage matches ClientStage::MessageWritten(j)
            &&& spec_client_next(plan, stage, ok).0 == ClientStage::Ready((j + 1) as usize)
            &&& j + 1 <= plan.messages
        },
        spec_client_next(plan, stage, ok).1 matches ClientActionView::Write(l) ==> (stage
            == ClientStage::Greeting && l == nick_line_text(plan.index as nat)) || (
        stage matches ClientStage::Ready(j) && j < plan.messages && l == message_line_text(
            plan.index as nat,
            j as nat,
        )),
{
}

/// A client can only be scripted for finitely many steps: every step but
/// the last one strictly lowers the number of steps left.
pub open spec fn steps_left(plan: ClientPlan, stage: ClientStage) -> nat {
    match stage {
        ClientStage::Greeting => (2 * plan.messages + 5) as nat,
        ClientStage::NickWritten => (2 * plan.messages + 4) as nat,
        ClientStage::Listening => (2 * plan.messages + 3) as nat,
        ClientStage::Ready(j) => if j <= plan.messages {
            (2 * (plan.messages - j) + 2) as nat
        } else {
            2
        },
        ClientStage::MessageWritten(j) => if j < plan.messages {
            (2 * (plan.messages - j) + 1) as nat
        } else {
            2
        },
        ClientStage::Holding => 1,
        ClientStage::Done => 0,
    }
}

/// Every client script ends: each step from a stage other than `Done`
/// lowers the steps left, and `Done` only repeats `Stop`.
pub proof fn lemma_client_script_ends(plan: ClientPlan, stage: ClientStage, ok: bool)
    requires
        stage_in_plan(plan, stage),
    ensures
        stage != ClientStage::Done ==> steps_left(plan, spec_client_next(plan, stage, ok).0)
            < steps_left(plan, stage),
        stage == ClientStage::Done ==> spec_client_next(plan, stage, ok) == (
            ClientStage::Done,
            ClientActionView::Stop,
        ),
{
}

} // verus!
