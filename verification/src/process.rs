//! Starting mpv: its command line, the bounded record of what it printed, the wait for
//! its IPC server, and the errors that report a failed start.

use std::collections::VecDeque;

use vstd::prelude::*;

use crate::error::Error;

verus! {

/// How many of mpv's most recent output lines are kept for an error report.
pub const STDOUT_LOG_CAPACITY: usize = 100;

/// How long to pause between two looks for mpv's IPC server, in milliseconds.
pub const IPC_POLL_INTERVAL_MS: u64 = 50;

/// The texts of a sequence of strings.
pub open spec fn texts(v: Seq<String>) -> Seq<Seq<char>> {
    v.map_values(|s: String| s@)
}

/// The argument that points mpv's IPC server at `pipe`.
pub open spec fn ipc_server_arg(pipe: Seq<char>) -> Seq<char> {
    "--input-ipc-server="@ + pipe
}

/// mpv's command line: the IPC server, the libmpv profile, then the caller's arguments.
pub open spec fn mpv_args_text(pipe: Seq<char>, extra: Seq<Seq<char>>) -> Seq<Seq<char>> {
    seq![ipc_server_arg(pipe), "--profile=libmpv"@] + extra
}

/// Builds the arguments mpv is started with for an instance whose IPC endpoint is
/// `ipc_pipe`.
pub fn mpv_args(ipc_pipe: &str, extra: &Vec<String>) -> (args: Vec<String>)
    ensures
        texts(args@) == mpv_args_text(ipc_pipe@, texts(extra@)),
        args@.len() == extra@.len() + 2,
        args@[0]@ == "--input-ipc-server="@ + ipc_pipe@,
        args@[1]@ == "--profile=libmpv"@,
        forall|i: int| 0 <= i < extra@.len() ==> (#[trigger] args@[i + 2])@ == extra@[i]@,
{
    let mut server = "--input-ipc-server=".to_owned();
    server.append(ipc_pipe);
    let mut args: Vec<String> = Vec::new();
    args.push(server);
    args.push("--profile=libmpv".to_owned());
    let mut i: usize = 0;
    while i < extra.len()
        invariant
            i <= extra@.len(),
            texts(args@) == mpv_args_text(ipc_pipe@, texts(extra@.subrange(0, i as int))),
        decreases extra@.len() - i,
    {
        let ghost before = args@;
        let item = extra[i].clone();
        assert(item@ == extra@[i as int]@);
        args.push(item);
        assert(texts(args@) =~= texts(before).push(extra@[i as int]@));
        i = i + 1;
        assert(texts(extra@.subrange(0, i as int)) =~= texts(extra@.subrange(0, i - 1)).push(
            extra@[i - 1]@,
        ));
        assert(mpv_args_text(ipc_pipe@, texts(extra@.subrange(0, i as int))) =~= mpv_args_text(
            ipc_pipe@,
            texts(extra@.subrange(0, i - 1)),
        ).push(extra@[i - 1]@));
    }
    assert(extra@.subrange(0, extra@.len() as int) =~= extra@);
    proof {
        lemma_texts(args@);
        lemma_texts(extra@);
        lemma_mpv_args_layout(ipc_pipe@, texts(extra@));
        assert forall|i: int| 0 <= i < extra@.len() implies (#[trigger] args@[i + 2])@
            == extra@[i]@ by {
            assert(texts(args@)[i + 2] == args@[i + 2]@);
            assert(texts(args@).subrange(2, texts(args@).len() as int)[i] == texts(args@)[i + 2]);
        }
    }
    args
}

/// Texts keep the length and the order of the strings they come from.
pub proof fn lemma_texts(v: Seq<String>)
    ensures
        texts(v).len() == v.len(),
        forall|i: int| 0 <= i < v.len() ==> #[trigger] texts(v)[i] == v[i]@,
{
}

/// mpv's command line has the IPC server argument first, the libmpv profile second, and
/// then every one of the caller's arguments, unchanged and in order, and nothing else.
pub proof fn lemma_mpv_args_layout(pipe: Seq<char>, extra: Seq<Seq<char>>)
    ensures
        mpv_args_text(pipe, extra).len() == extra.len() + 2,
        mpv_args_text(pipe, extra)[0] == "--input-ipc-server="@ + pipe,
        mpv_args_text(pipe, extra)[1] == "--profile=libmpv"@,
        mpv_args_text(pipe, extra).subrange(2, extra.len() + 2 as int) == extra,
{
    assert(mpv_args_text(pipe, extra).subrange(2, extra.len() + 2 as int) =~= extra);
}

/// The log after one more line: the line is appended, and the oldest line is dropped
/// once there are more than `STDOUT_LOG_CAPACITY`.
pub open spec fn bounded_push(log: Seq<Seq<char>>, line: Seq<char>) -> Seq<Seq<char>> {
    let grown = log.push(line);
    if grown.len() > STDOUT_LOG_CAPACITY {
        grown.drop_first()
    } else {
        grown
    }
}

/// The log after `lines` were pushed, in order, into an empty one.
pub open spec fn log_after(lines: Seq<Seq<char>>) -> Seq<Seq<char>>
    decreases lines.len(),
{
    if lines.len() == 0 {
        Seq::empty()
    } else {
        bounded_push(log_after(lines.drop_last()), lines.last())
    }
}

/// The most recent lines that mpv printed, at most `STDOUT_LOG_CAPACITY` of them.
pub struct StdoutLog {
    lines: VecDeque<String>,
}

impl View for StdoutLog {
    type V = Seq<Seq<char>>;

    closed spec fn view(&self) -> Seq<Seq<char>> {
        texts(self.lines@)
    }
}

impl StdoutLog {
    #[verifier::type_invariant]
    closed spec fn within_capacity(self) -> bool {
        self.lines@.len() <= STDOUT_LOG_CAPACITY
    }

    /// An empty log.
    pub fn new() -> (log: Self)
        ensures
            log@ == Seq::<Seq<char>>::empty(),
    {
        let log = StdoutLog { lines: VecDeque::new() };
        assert(log@ =~= Seq::<Seq<char>>::empty());
        log
    }

    /// Records one more line.
    pub fn push(&mut self, line: String)
        ensures
            final(self)@ == bounded_push(old(self)@, line@),
            final(self)@.len() <= STDOUT_LOG_CAPACITY,
            old(self)@.len() < 100 ==> final(self)@ == old(self)@.push(line@),
            old(self)@.len() >= 100 ==> final(self)@ == old(self)@.push(line@).subrange(
                old(self)@.len() + 1 - 100 as int,
                old(self)@.len() + 1 as int,
            ),
    {
        proof {
            use_type_invariant(&*self);
            assert(old(self)@.len() <= 100);
            if old(self)@.len() == 100 {
                assert(old(self)@.push(line@).drop_first() =~= old(self)@.push(line@).subrange(
                    1,
                    101,
                ));
            }
        }
        let ghost line_text = line@;
        let mut lines: VecDeque<String> = VecDeque::new();
        std::mem::swap(&mut lines, &mut self.lines);
        assert(texts(lines@.push(line)) =~= texts(lines@).push(line_text));
        lines.push_back(line);
        if lines.len() > STDOUT_LOG_CAPACITY {
            let ghost grown = lines@;
            let _ = lines.pop_front();
            assert(texts(lines@) =~= texts(grown).drop_first());
        }
        self.lines = lines;
    }

    /// Hands out the recorded lines, oldest first, and empties the log.
    pub fn take_lines(&mut self) -> (lines: Vec<String>)
        ensures
            texts(lines@) == old(self)@,
            final(self)@ == Seq::<Seq<char>>::empty(),
    {
        let mut queue: VecDeque<String> = VecDeque::new();
        std::mem::swap(&mut queue, &mut self.lines);
        let ghost all = queue@;
        let mut lines: Vec<String> = Vec::new();
        loop
            invariant
                lines@ + queue@ == all,
            ensures
                lines@ == all,
            decreases queue@.len(),
        {
            match queue.pop_front() {
                Some(line) => {
                    lines.push(line);
                },
                None => {
                    break ;
                },
            }
        }
        assert(self@ =~= Seq::<Seq<char>>::empty());
        lines
    }
}

/// Whatever lines mpv printed, its log holds the last `STDOUT_LOG_CAPACITY` of them (all
/// of them when there were fewer), in the order they were printed.
pub proof fn lemma_log_keeps_last_lines(lines: Seq<Seq<char>>)
    ensures
        log_after(lines) == lines.subrange(
            if lines.len() > 100 {
                lines.len() - 100
            } else {
                0
            },
            lines.len() as int,
        ),
        log_after(lines).len() <= 100,
    decreases lines.len(),
{
    if lines.len() == 0 {
        assert(lines.subrange(0, 0) =~= Seq::<Seq<char>>::empty());
    } else {
        let prev = lines.drop_last();
        lemma_log_keeps_last_lines(prev);
        let n = lines.len() as int;
        let start_prev: int = if prev.len() > STDOUT_LOG_CAPACITY {
            prev.len() - STDOUT_LOG_CAPACITY
        } else {
            0
        };
        let start: int = if n > STDOUT_LOG_CAPACITY {
            n - STDOUT_LOG_CAPACITY
        } else {
            0
        };
        assert(STDOUT_LOG_CAPACITY == 100);
        let grown = log_after(prev).push(lines.last());
        assert(grown =~= lines.subrange(start_prev, n));
        if grown.len() > STDOUT_LOG_CAPACITY {
            assert(grown.drop_first() =~= lines.subrange(start, n));
        } else {
            assert(start == start_prev);
        }
    }
}

/// The block of mpv's output in a startup failure report: one line per output line.
pub open spec fn stdout_block(id: Seq<char>, lines: Seq<Seq<char>>) -> Seq<char>
    decreases lines.len(),
{
    if lines.len() == 0 {
        Seq::empty()
    } else {
        stdout_block(id, lines.drop_last()) + "mpv stdout ["@ + id + "] "@ + lines.last() + "\n"@
    }
}

/// The output block has nothing for no lines, and each further line adds
/// `mpv stdout [{id}] {line}` and a line break at its end.
pub proof fn lemma_stdout_block_lines(id: Seq<char>, lines: Seq<Seq<char>>, line: Seq<char>)
    ensures
        stdout_block(id, Seq::<Seq<char>>::empty()) == Seq::<char>::empty(),
        stdout_block(id, lines.push(line)) == stdout_block(id, lines) + "mpv stdout ["@ + id
            + "] "@ + line + "\n"@,
{
    assert(lines.push(line).drop_last() =~= lines);
}

/// The report of an mpv that started but whose IPC server never came up.
pub open spec fn startup_failure_text(id: Seq<char>, lines: Seq<Seq<char>>, reason: Seq<char>) -> Seq<
    char,
> {
    "mpv startup failed for instance '"@ + id + "'. Collected stdout:"@ + "\n"@ + stdout_block(
        id,
        lines,
    ) + reason
}

/// The process error for an mpv whose IPC server never came up: it names the instance,
/// quotes what mpv printed, and ends with why the wait failed.
pub fn startup_failure(id: &str, stdout_lines: &Vec<String>, reason: &str) -> (e: Error)
    ensures
        e matches Error::MpvProcessError(message) && message@ == startup_failure_text(
            id@,
            texts(stdout_lines@),
            reason@,
        ) && message@ == "mpv startup failed for instance '"@ + id@ + "'. Collected stdout:"@
            + "\n"@ + stdout_block(id@, texts(stdout_lines@)) + reason@,
{
    let mut message = "mpv startup failed for instance '".to_owned();
    message.append(id);
    message.append("'. Collected stdout:");
    message.append("\n");
    let ghost head = message@;
    let mut i: usize = 0;
    while i < stdout_lines.len()
        invariant
            i <= stdout_lines@.len(),
            message@ == head + stdout_block(id@, texts(stdout_lines@.subrange(0, i as int))),
        decreases stdout_lines@.len() - i,
    {
        let ghost before = message@;
        message.append("mpv stdout [");
        message.append(id);
        message.append("] ");
        message.append(stdout_lines[i].as_str());
        message.append("\n");
        i = i + 1;
        let ghost done = texts(stdout_lines@.subrange(0, i as int));
        assert(done.drop_last() =~= texts(stdout_lines@.subrange(0, i - 1)));
        assert(done.last() == stdout_lines@[i - 1]@);
        assert(message@ =~= head + stdout_block(id@, done));
    }
    assert(stdout_lines@.subrange(0, stdout_lines@.len() as int) =~= stdout_lines@);
    message.append(reason);
    assert(message@ =~= startup_failure_text(id@, texts(stdout_lines@), reason@));
    Error::MpvProcessError(message)
}

/// The report of an mpv executable that could not be started.
pub open spec fn spawn_failure_text(reason: Seq<char>) -> Seq<char> {
    "Failed to start mpv: "@ + reason + ". Is mpv installed and in your PATH?"@
}

/// The process error for an mpv executable that could not be started, with the reason
/// the start failed.
pub fn spawn_failure(reason: &str) -> (e: Error)
    ensures
        e matches Error::MpvProcessError(message) && message@ == spawn_failure_text(reason@)
            && message@ == "Failed to start mpv: "@ + reason@
            + ". Is mpv installed and in your PATH?"@,
{
    let mut message = "Failed to start mpv: ".to_owned();
    message.append(reason);
    message.append(". Is mpv installed and in your PATH?");
    Error::MpvProcessError(message)
}

/// What to do after one look for mpv's IPC server.
#[derive(Debug, Clone, Copy, PartialEq, Eq)]
pub enum IpcWait {
    /// The server is there, within the time allowed.
    Ready,
    /// Not yet there: pause for `IPC_POLL_INTERVAL_MS` and look again.
    Poll,
    /// The time allowed has run out.
    TimedOut,
}

/// Decides the wait for mpv's IPC server from the time since the wait began, the time
/// allowed (both in nanoseconds), and whether the endpoint exists now.
pub fn ipc_wait_step(elapsed_nanos: u128, timeout_nanos: u128, endpoint_exists: bool) -> (step: IpcWait)
    ensures
        step == IpcWait::TimedOut <==> elapsed_nanos >= timeout_nanos,
        step == IpcWait::Ready <==> (elapsed_nanos < timeout_nanos && endpoint_exists),
        step == IpcWait::Poll <==> (elapsed_nanos < timeout_nanos && !endpoint_exists),
{
    if elapsed_nanos < timeout_nanos {
        if endpoint_exists {
            IpcWait::Ready
        } else {
            IpcWait::Poll
        }
    } else {
        IpcWait::TimedOut
    }
}

/// The `Debug` rendering of the duration of `secs` seconds and `nanos` nanoseconds.
pub uninterp spec fn duration_debug_text(secs: u64, nanos: u32) -> Seq<char>;

/// Renders `Duration::new(secs, nanos)` as `{:?}` does (`2s`, `1.5s`, `50ms`, ...).
#[verifier::external_body]
fn duration_debug(secs: u64, nanos: u32) -> (text: String)
    requires
        nanos < 1_000_000_000,
    ensures
        text@ == duration_debug_text(secs, nanos),
{
    format!("{:?}", std::time::Duration::new(secs, nanos))
}

/// The report of a wait for mpv's IPC server that ran out of time.
pub open spec fn ipc_timeout_text(timeout: Seq<char>, id: Seq<char>, pipe: Seq<char>) -> Seq<char> {
    "Timed out after "@ + timeout + " waiting for IPC server for instance '"@ + id + "' at '"@
        + pipe + "'"@
}

/// Builds the timeout report from the rendered time allowed.
pub fn ipc_timeout_message(timeout: &str, id: &str, pipe: &str) -> (message: String)
    ensures
        message@ == ipc_timeout_text(timeout@, id@, pipe@),
        message@ == "Timed out after "@ + timeout@ + " waiting for IPC server for instance '"@
            + id@ + "' at '"@ + pipe@ + "'"@,
{
    let mut message = "Timed out after ".to_owned();
    message.append(timeout);
    message.append(" waiting for IPC server for instance '");
    message.append(id);
    message.append("' at '");
    message.append(pipe);
    message.append("'");
    message
}

/// The report of a wait for the IPC server of instance `id` at `pipe` that ran out of
/// time, where the time allowed was `timeout_secs` seconds and `timeout_subsec_nanos`
/// nanoseconds.
pub fn ipc_wait_timed_out(timeout_secs: u64, timeout_subsec_nanos: u32, id: &str, pipe: &str) -> (message: String)
    requires
        timeout_subsec_nanos < 1_000_000_000,
    ensures
        message@ == ipc_timeout_text(
            duration_debug_text(timeout_secs, timeout_subsec_nanos),
            id@,
            pipe@,
        ),
        message@ == "Timed out after "@ + duration_debug_text(timeout_secs, timeout_subsec_nanos)
            + " waiting for IPC server for instance '"@ + id@ + "' at '"@ + pipe@ + "'"@,
{
    let timeout = duration_debug(timeout_secs, timeout_subsec_nanos);
    ipc_timeout_message(timeout.as_str(), id, pipe)
}

} // verus!
