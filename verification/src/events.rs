//! The decisions of the event listener: when to connect to mpv's IPC endpoint, when to
//! give up, which properties to observe, and what to do with each line that mpv sends.

use vstd::prelude::*;

use crate::models::MpvEvent;
use crate::process::texts;
use crate::text::{
    contains, contains_seq, decimal, decimal_value, is_digit, lemma_decimal_round_trip,
    push_decimal,
};

verus! {

/// How many connection attempts in a row may fail before the listener gives up.
pub const MAX_CONNECT_ATTEMPTS: u32 = 5;

/// Why the listener stops.
#[derive(Debug, Clone, Copy, PartialEq, Eq)]
pub enum ListenerStop {
    /// The instance now runs a different mpv process than the one this listener serves.
    StaleProcess,
    /// The mpv process has terminated.
    ProcessExited,
    /// `MAX_CONNECT_ATTEMPTS` connection attempts in a row failed.
    RetriesExhausted,
}

/// What to do at the top of the listener's loop.
#[derive(Debug, Clone, Copy, PartialEq, Eq)]
pub enum AttemptDecision {
    /// Try to connect; this is attempt number `attempt` since the last success.
    Connect { attempt: u32 },
    /// Stop listening.
    Stop(ListenerStop),
}

/// What to do after a connection attempt failed.
#[derive(Debug, Clone, Copy, PartialEq, Eq)]
pub enum FailureDecision {
    /// Pause for the IPC timeout, then go round the loop again.
    RetryAfterPause,
    /// Stop listening.
    Stop(ListenerStop),
}

/// Whether a failed attempt, after `retries` attempts in a row without a connection,
/// ends the listener.
pub open spec fn gives_up_after_failure(retries: nat) -> bool {
    retries >= MAX_CONNECT_ATTEMPTS
}

/// The count of attempts without a connection after `rounds` more attempts that all failed.
pub open spec fn retries_after_failed_rounds(start: nat, rounds: nat) -> nat
    decreases rounds,
{
    if rounds == 0 {
        start
    } else {
        retries_after_failed_rounds(start, (rounds - 1) as nat) + 1
    }
}

/// The state of the listener for one mpv process.
pub struct EventListener {
    process_id: u32,
    retry_count: u32,
}

impl EventListener {
    #[verifier::type_invariant]
    closed spec fn retries_bounded(self) -> bool {
        self.retry_count <= MAX_CONNECT_ATTEMPTS
    }

    /// The mpv process this listener serves.
    pub closed spec fn watched_process(self) -> u32 {
        self.process_id
    }

    /// Connection attempts since the last successful connection.
    pub closed spec fn retries(self) -> nat {
        self.retry_count as nat
    }

    /// A listener for process `process_id` that has made no attempt yet.
    pub fn new(process_id: u32) -> (listener: Self)
        ensures
            listener.watched_process() == process_id,
            listener.retries() == 0,
    {
        EventListener { process_id, retry_count: 0 }
    }

    /// The mpv process this listener serves.
    pub fn process_id(&self) -> (pid: u32)
        ensures
            pid == self.watched_process(),
    {
        self.process_id
    }

    /// Connection attempts since the last successful connection.
    pub fn retry_count(&self) -> (count: u32)
        ensures
            count == self.retries(),
            count <= MAX_CONNECT_ATTEMPTS,
            count <= 5,
    {
        proof {
            use_type_invariant(self);
        }
        self.retry_count
    }

    /// Decides, at the top of the loop, from the process that the instance runs now and
    /// whether it has terminated: stop if the process is another one or has exited,
    /// otherwise count one more attempt and connect.
    pub fn begin_attempt(&mut self, current_process_id: u32, exited: bool) -> (d: AttemptDecision)
        ensures
            final(self).watched_process() == old(self).watched_process(),
            current_process_id != old(self).watched_process() ==> (d == AttemptDecision::Stop(
                ListenerStop::StaleProcess,
            ) && final(self).retries() == old(self).retries()),
            current_process_id == old(self).watched_process() && exited ==> (d
                == AttemptDecision::Stop(ListenerStop::ProcessExited) && final(self).retries()
                == old(self).retries()),
            current_process_id == old(self).watched_process() && !exited && old(self).retries()
                < MAX_CONNECT_ATTEMPTS ==> (final(self).retries() == old(self).retries() + 1 && (
            d matches AttemptDecision::Connect { attempt } && attempt == final(self).retries())),
            current_process_id == old(self).watched_process() && !exited && old(self).retries()
                >= MAX_CONNECT_ATTEMPTS ==> (d == AttemptDecision::Stop(
                ListenerStop::RetriesExhausted,
            ) && final(self).retries() == old(self).retries()),
            final(self).retries() <= 5,
            current_process_id == old(self).watched_process() && !exited && old(self).retries()
                < 5 ==> (d matches AttemptDecision::Connect { attempt } && attempt == old(
                self,
            ).retries() + 1),
    {
        proof {
            use_type_invariant(&*self);
        }
        if current_process_id != self.process_id {
            AttemptDecision::Stop(ListenerStop::StaleProcess)
        } else if exited {
            AttemptDecision::Stop(ListenerStop::ProcessExited)
        } else if self.retry_count >= MAX_CONNECT_ATTEMPTS {
            AttemptDecision::Stop(ListenerStop::RetriesExhausted)
        } else {
            self.retry_count = self.retry_count + 1;
            AttemptDecision::Connect { attempt: self.retry_count }
        }
    }

    /// Decides after a failed connection attempt: give up once the attempts in a row
    /// reach `MAX_CONNECT_ATTEMPTS`, otherwise pause and try again.
    pub fn connect_failed(&self) -> (d: FailureDecision)
        ensures
            gives_up_after_failure(self.retries()) ==> d == FailureDecision::Stop(
                ListenerStop::RetriesExhausted,
            ),
            !gives_up_after_failure(self.retries()) ==> d == FailureDecision::RetryAfterPause,
            self.retries() >= 5 ==> d == FailureDecision::Stop(ListenerStop::RetriesExhausted),
            self.retries() < 5 ==> d == FailureDecision::RetryAfterPause,
    {
        if self.retry_count >= MAX_CONNECT_ATTEMPTS {
            FailureDecision::Stop(ListenerStop::RetriesExhausted)
        } else {
            FailureDecision::RetryAfterPause
        }
    }

    /// Records a successful connection: the count of attempts starts again from zero.
    pub fn connected(&mut self)
        ensures
            final(self).watched_process() == old(self).watched_process(),
            final(self).retries() == 0,
    {
        self.retry_count = 0;
    }
}

/// From a fresh or just-connected listener whose process stays alive, each failed
/// attempt counts one more, and the failure of attempt `k` ends the listener exactly when
/// `k` reaches `MAX_CONNECT_ATTEMPTS`: the listener tries that many times, no more and
/// no fewer, before it gives up.
pub proof fn lemma_gives_up_after_max_attempts(k: nat)
    ensures
        retries_after_failed_rounds(0, k) == k,
        gives_up_after_failure(retries_after_failed_rounds(0, k)) <==> k >= 5,
    decreases k,
{
    if k > 0 {
        lemma_gives_up_after_max_attempts((k - 1) as nat);
    }
}

/// The command that asks mpv to report changes of `property`, numbered `index + 1`.
pub open spec fn observe_command_text(index: nat, property: Seq<char>) -> Seq<char> {
    "{\"command\": [\"observe_property\", "@ + decimal(index + 1) + ", \""@ + property
        + "\"]}"@
}

/// The text before the observe id in an observe command.
pub open spec fn observe_prefix() -> Seq<char> {
    "{\"command\": [\"observe_property\", "@
}

/// The observe command for the property at position `index` carries, right after its
/// fixed opening, a run of decimal digits that reads `index + 1`, followed by the quoted
/// property name and the closing brackets; so the k-th property is observed under id k,
/// and two positions never share an id.
pub proof fn lemma_observe_command_id(index: nat, property: Seq<char>)
    ensures
        ({
            let t = observe_command_text(index, property);
            let start = observe_prefix().len() as int;
            &&& observe_prefix() == "{\"command\": [\"observe_property\", "@
            &&& t.subrange(0, start) == observe_prefix()
            &&& exists|end: int|
                start < end <= t.len() && (forall|i: int|
                    start <= i < end ==> is_digit(#[trigger] t[i])) && decimal_value(
                    t.subrange(start, end),
                ) == index + 1 && t.subrange(end, t.len() as int) == ", \""@ + property
                    + "\"]}"@
        }),
{
    let t = observe_command_text(index, property);
    let p = observe_prefix();
    let d = decimal(index + 1);
    lemma_decimal_round_trip(index + 1);
    let start = p.len() as int;
    let end = start + d.len();
    assert(t =~= p + d + (", \""@ + property + "\"]}"@));
    assert(t.subrange(0, start) =~= p);
    assert(t.subrange(start, end) =~= d);
    assert(t.subrange(end, t.len() as int) =~= ", \""@ + property + "\"]}"@);
    assert forall|i: int| start <= i < end implies is_digit(#[trigger] t[i]) by {
        assert(t[i] == d[i - start]);
    }
}

/// Builds the command that observes the property at position `index` of the configured
/// list; mpv reports its changes under id `index + 1`.
pub fn observe_property_command(index: usize, property: &str) -> (command: String)
    requires
        index < usize::MAX,
    ensures
        command@ == observe_command_text(index as nat, property@),
        command@ == "{\"command\": [\"observe_property\", "@ + decimal((index + 1) as nat)
            + ", \""@ + property@ + "\"]}"@,
{
    let mut command = "{\"command\": [\"observe_property\", ".to_owned();
    push_decimal(&mut command, (index as u64) + 1);
    command.append(", \"");
    command.append(property);
    command.append("\"]}");
    command
}

/// Splits the configured properties by how sending their observe commands went: when
/// the command for the property at `first_failure` could not be written, the ones before
/// it were observed, it failed, and the rest were not tried; with no failure, all were
/// observed.
pub fn observe_report(properties: &Vec<String>, first_failure: Option<usize>) -> (report: (
    Vec<String>,
    Vec<String>,
))
    ensures
        first_failure matches Some(k) ==> (k < properties@.len() ==> (texts(report.0@) == texts(
            properties@.subrange(0, k as int),
        ) && texts(report.1@) == seq![properties@[k as int]@])),
        first_failure matches Some(k) ==> (k >= properties@.len() ==> (texts(report.0@) == texts(
            properties@,
        ) && report.1@.len() == 0)),
        first_failure is None ==> (texts(report.0@) == texts(properties@) && report.1@.len() == 0),
{
    let end: usize = match first_failure {
        Some(k) => if k < properties.len() {
            k
        } else {
            properties.len()
        },
        None => properties.len(),
    };
    let mut observed: Vec<String> = Vec::new();
    let mut i: usize = 0;
    while i < end
        invariant
            end <= properties@.len(),
            i <= end,
            texts(observed@) == texts(properties@.subrange(0, i as int)),
        decreases end - i,
    {
        let ghost before = observed@;
        let item = properties[i].clone();
        observed.push(item);
        assert(texts(observed@) =~= texts(before).push(properties@[i as int]@));
        i = i + 1;
        assert(texts(properties@.subrange(0, i as int)) =~= texts(
            properties@.subrange(0, i - 1),
        ).push(properties@[i - 1]@));
    }
    let mut failed: Vec<String> = Vec::new();
    if end < properties.len() {
        let item = properties[end].clone();
        failed.push(item);
        assert(texts(failed@) =~= seq![properties@[end as int]@]);
    } else {
        assert(properties@.subrange(0, end as int) =~= properties@);
    }
    (observed, failed)
}

/// What the listener does with one line read from mpv.
#[derive(Debug, PartialEq)]
pub enum LineAction {
    /// The line is an event: pass it on to the instance.
    Forward(MpvEvent),
    /// The line names an event but could not be read as one: report it.
    ReportUnparsed,
    /// The line is something else (a command reply): skip it.
    Ignore,
}

/// The marker of a line that carries an event.
pub open spec fn event_marker() -> Seq<char> {
    "\"event\""@
}

/// The marker is the word `event` in double quotes, seven characters; a line holds it
/// exactly when some position starts those seven characters.
pub proof fn lemma_event_marker(line: Seq<char>)
    ensures
        event_marker() == seq!['"', 'e', 'v', 'e', 'n', 't', '"'],
        contains_seq(line, event_marker()) <==> exists|i: int|
            0 <= i && i + 7 <= line.len() && #[trigger] line[i] == '"' && line[i + 1] == 'e'
                && line[i + 2] == 'v' && line[i + 3] == 'e' && line[i + 4] == 'n' && line[i + 5]
                == 't' && line[i + 6] == '"',
{
    reveal_strlit("\"event\"");
    let m = event_marker();
    assert(m =~= seq!['"', 'e', 'v', 'e', 'n', 't', '"']);
    if contains_seq(line, m) {
        let i = choose|i: int|
            0 <= i && i + m.len() <= line.len() && #[trigger] line.subrange(i, i + m.len()) == m;
        assert(line.subrange(i, i + 7)[0] == line[i]);
        assert(line.subrange(i, i + 7)[1] == line[i + 1]);
        assert(line.subrange(i, i + 7)[2] == line[i + 2]);
        assert(line.subrange(i, i + 7)[3] == line[i + 3]);
        assert(line.subrange(i, i + 7)[4] == line[i + 4]);
        assert(line.subrange(i, i + 7)[5] == line[i + 5]);
        assert(line.subrange(i, i + 7)[6] == line[i + 6]);
    }
    if exists|i: int|
        0 <= i && i + 7 <= line.len() && #[trigger] line[i] == '"' && line[i + 1] == 'e' && line[i
            + 2] == 'v' && line[i + 3] == 'e' && line[i + 4] == 'n' && line[i + 5] == 't' && line[i
            + 6] == '"' {
        let i = choose|i: int|
            0 <= i && i + 7 <= line.len() && #[trigger] line[i] == '"' && line[i + 1] == 'e'
                && line[i + 2] == 'v' && line[i + 3] == 'e' && line[i + 4] == 'n' && line[i + 5]
                == 't' && line[i + 6] == '"';
        assert(line.subrange(i, i + 7) =~= m);
    }
}

/// Decides what to do with `line`, given the event it was read as, if any.
pub fn line_action(parsed: Option<MpvEvent>, line: &str) -> (action: LineAction)
    ensures
        parsed matches Some(event) ==> action == LineAction::Forward(event),
        parsed is None && contains_seq(line@, event_marker()) ==> action
            == LineAction::ReportUnparsed,
        parsed is None && !contains_seq(line@, event_marker()) ==> action == LineAction::Ignore,
        parsed is None ==> (action == LineAction::ReportUnparsed <==> contains_seq(
            line@,
            "\"event\""@,
        )),
        parsed is None ==> (action == LineAction::ReportUnparsed || action == LineAction::Ignore),
{
    match parsed {
        Some(event) => LineAction::Forward(event),
        None => {
            if contains(line, "\"event\"") {
                LineAction::ReportUnparsed
            } else {
                LineAction::Ignore
            }
        },
    }
}

} // verus!
