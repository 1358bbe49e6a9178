//! Decisions of an mpv client: naming an instance, and turning what comes back from
//! mpv, its event channel and its process into results.

use vstd::prelude::*;

use crate::error::Error;
use crate::models::{JsonValue, MpvCommandResponse, MpvEvent};
use crate::text::{
    decimal, decimal_value, is_digit, lemma_decimal_round_trip, lemma_decimal_injective,
    push_decimal,
};

verus! {

/// The name of an instance: the process id and a sequence number, joined by `_`.
pub open spec fn instance_id_text(process_id: nat, sequence: nat) -> Seq<char> {
    decimal(process_id) + seq!['_'] + decimal(sequence)
}

/// Builds the name that identifies an instance within this process, and from which its
/// IPC endpoint is derived: `{process_id}_{sequence}`.
pub fn instance_id(process_id: u32, sequence: u64) -> (id: String)
    ensures
        id@ == instance_id_text(process_id as nat, sequence as nat),
        id@ == decimal(process_id as nat) + seq!['_'] + decimal(sequence as nat),
{
    let mut id = String::new();
    push_decimal(&mut id, process_id as u64);
    id.append("_");
    push_decimal(&mut id, sequence);
    proof {
        reveal_strlit("_");
        assert(id@ =~= instance_id_text(process_id as nat, sequence as nat));
    }
    id
}

/// An instance name is the process id in decimal digits, one `_`, and the sequence
/// number in decimal digits: it holds exactly one `_`, everything before it reads back
/// as the process id and everything after it as the sequence number.
pub proof fn lemma_instance_id_layout(process_id: nat, sequence: nat)
    ensures
        ({
            let t = instance_id_text(process_id, sequence);
            exists|k: int|
                0 < k < t.len() - 1 && t[k] == '_' && (forall|i: int|
                    0 <= i < t.len() && i != k ==> is_digit(#[trigger] t[i]))
                    && decimal_value(t.subrange(0, k)) == process_id && decimal_value(
                    t.subrange(k + 1, t.len() as int),
                ) == sequence
        }),
{
    lemma_decimal_round_trip(process_id);
    lemma_decimal_round_trip(sequence);
    let t = instance_id_text(process_id, sequence);
    let dp = decimal(process_id);
    let ds = decimal(sequence);
    let k = dp.len() as int;
    assert(t =~= dp + seq!['_'] + ds);
    assert(t.subrange(0, k) =~= dp);
    assert(t.subrange(k + 1, t.len() as int) =~= ds);
    assert(t[k] == '_');
    assert forall|i: int| 0 <= i < t.len() && i != k implies is_digit(#[trigger] t[i]) by {
        if i < k {
            assert(t[i] == dp[i]);
        } else {
            assert(t[i] == ds[i - k - 1]);
        }
    }
}

/// Two instances get the same name only if they have the same process id and the same
/// sequence number: instances numbered apart in one process, or started by different
/// processes, never share an IPC endpoint.
pub proof fn lemma_instance_ids_distinct(p1: nat, s1: nat, p2: nat, s2: nat)
    requires
        instance_id_text(p1, s1) == instance_id_text(p2, s2),
    ensures
        p1 == p2,
        s1 == s2,
{
    lemma_decimal_round_trip(p1);
    lemma_decimal_round_trip(p2);
    lemma_decimal_round_trip(s1);
    lemma_decimal_round_trip(s2);
    let t1 = instance_id_text(p1, s1);
    let t2 = instance_id_text(p2, s2);
    let l1 = decimal(p1).len() as int;
    let l2 = decimal(p2).len() as int;
    if l1 < l2 {
        assert(t1[l1] == '_');
        assert(t2[l1] == decimal(p2)[l1]);
        assert(false);
    } else if l2 < l1 {
        assert(t2[l2] == '_');
        assert(t1[l2] == decimal(p1)[l2]);
        assert(false);
    }
    assert(decimal(p1) =~= t1.subrange(0, l1));
    assert(decimal(p2) =~= t2.subrange(0, l2));
    lemma_decimal_injective(p1, p2);
    assert(decimal(s1) =~= t1.subrange(l1 + 1, t1.len() as int));
    assert(decimal(s2) =~= t2.subrange(l2 + 1, t2.len() as int));
    lemma_decimal_injective(s1, s2);
}

/// What mpv's reply to a command comes to: its data (`null` when it carries none) if
/// its error field reads `success`, and otherwise that error.
pub fn command_outcome(response: MpvCommandResponse) -> (r: Result<JsonValue, Error>)
    ensures
        response.error@ == "success"@ ==> r == Ok::<JsonValue, Error>(
            match response.data {
                Some(data) => data,
                None => JsonValue::Null,
            },
        ),
        response.error@ != "success"@ ==> r == Err::<JsonValue, Error>(
            Error::MpvCommandError(response.error),
        ),
{
    let success = "success".to_owned();
    if response.error == success {
        match response.data {
            Some(data) => Ok(data),
            None => Ok(JsonValue::Null),
        }
    } else {
        Err(Error::MpvCommandError(response.error))
    }
}

/// What a non-blocking look at the event channel found.
pub enum EventPoll {
    /// An event was waiting.
    Received(MpvEvent),
    /// No event was waiting.
    Empty,
    /// The listener that feeds the channel has gone away.
    Disconnected,
}

/// The message reported when the event channel has no listener behind it any more.
pub open spec fn disconnected_text() -> Seq<char> {
    "Event channel disconnected"@
}

/// What polling for an event returns: the event, nothing, or an IPC error once the
/// channel is disconnected.
pub fn event_poll_outcome(poll: EventPoll) -> (r: Result<Option<MpvEvent>, Error>)
    ensures
        poll matches EventPoll::Received(event) ==> r == Ok::<Option<MpvEvent>, Error>(
            Some(event),
        ),
        poll is Empty ==> r == Ok::<Option<MpvEvent>, Error>(None),
        poll is Disconnected ==> (r matches Err(Error::IpcError(message)) && message@
            == disconnected_text()),
        poll is Disconnected ==> (r matches Err(Error::IpcError(message)) && message@
            == "Event channel disconnected"@),
{
    match poll {
        EventPoll::Received(event) => Ok(Some(event)),
        EventPoll::Empty => Ok(None),
        EventPoll::Disconnected => Err(Error::IpcError("Event channel disconnected".to_owned())),
    }
}

/// The message reported when mpv could not be killed.
pub open spec fn kill_failure_text(process_id: nat, id: Seq<char>, reason: Seq<char>) -> Seq<char> {
    "Failed to kill mpv process (PID: "@ + decimal(process_id) + ") for instance '"@ + id
        + "': "@ + reason
}

/// What stopping an instance returns: success when the kill succeeded, and otherwise a
/// process error naming the process, the instance and the reason the kill failed.
pub fn kill_outcome(process_id: u32, id: &str, kill_error: Option<String>) -> (r: Result<(), Error>)
    ensures
        kill_error is None ==> r == Ok::<(), Error>(()),
        kill_error matches Some(reason) ==> (r matches Err(Error::MpvProcessError(message))
            && message@ == kill_failure_text(process_id as nat, id@, reason@)),
        kill_error matches Some(reason) ==> (r matches Err(Error::MpvProcessError(message))
            && message@ == "Failed to kill mpv process (PID: "@ + decimal(process_id as nat)
            + ") for instance '"@ + id@ + "': "@ + reason@),
{
    match kill_error {
        None => Ok(()),
        Some(reason) => {
            let mut message = "Failed to kill mpv process (PID: ".to_owned();
            push_decimal(&mut message, process_id as u64);
            message.append(") for instance '");
            message.append(id);
            message.append("': ");
            message.append(reason.as_str());
            Err(Error::MpvProcessError(message))
        },
    }
}

} // verus!
