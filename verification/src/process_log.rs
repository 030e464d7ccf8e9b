//! Heuristic classification of client output lines, and the bounded process
//! log that accumulates them together with the derived session flags.

use vstd::prelude::*;
use crate::chars::{
    chars_of, contains_chars, contains_seq, fold_case, lowercase_chars, starts_with_chars,
    starts_with_seq,
};

verus! {

/// Capacity of the line ring buffer; the oldest line is evicted beyond it.
pub const MAX_LOG_LINES: usize = 500;

/// What a single output line means for the session, judged against the
/// connected flag that held when the line arrived.
#[derive(Clone, Copy, Debug, PartialEq, Eq, Structural)]
pub enum LogLineEvent {
    Connected,
    ConnectError,
    PostConnectError,
    Normal,
}

/// The line (lower-cased) announces a successful connection.
pub open spec fn spec_is_connected_line(l: Seq<char>) -> bool {
    ||| contains_seq(l, "successfully connected to endpoint"@)
    ||| contains_seq(l, "successfully connected"@)
    ||| contains_seq(l, "socks listener started"@)
    ||| (contains_seq(l, "listening"@) && contains_seq(l, "socks"@))
    ||| (contains_seq(l, "socks"@) && contains_seq(l, "bind"@))
}

/// The line (lower-cased) reports an error during the connect phase.
/// Lines mentioning "waiting recovery" are the client retrying on its own
/// and are never treated as errors.
pub open spec fn spec_is_connect_error_line(l: Seq<char>) -> bool {
    &&& !contains_seq(l, "waiting recovery"@)
    &&& {
        ||| starts_with_seq(l, "error:"@)
        ||| contains_seq(l, "failed to"@)
        ||| contains_seq(l, "denied"@)
        ||| contains_seq(l, "unauthorized"@)
        ||| contains_seq(l, "refused"@)
        ||| contains_seq(l, "failed parsing"@)
        ||| contains_seq(l, "failed to start listening"@)
        ||| contains_seq(l, "failed to create listener"@)
        ||| contains_seq(l, "failed to initialize tunnel"@)
        ||| contains_seq(l, "couldn't detect active network"@)
        ||| contains_seq(l, "failed on create vpn"@)
    }
}

/// The line (lower-cased) reports an anomaly after the session connected.
pub open spec fn spec_is_post_connect_error_line(l: Seq<char>) -> bool {
    ||| contains_seq(l, "health check error"@)
    ||| contains_seq(l, "response: http/2.0 407"@)
    ||| (contains_seq(l, "authorization required"@) && !contains_seq(l, "proxy-authenticate"@))
    ||| (contains_seq(l, "connection failed"@) && contains_seq(l, "socks"@))
}

/// Classification of one line against the current connected flag.
/// The connected check fires regardless of prior state; the error checks
/// are phase-specific. The first match wins.
pub open spec fn spec_classify(line: Seq<char>, already_connected: bool) -> LogLineEvent {
    let l = fold_case(line);
    if spec_is_connected_line(l) {
        LogLineEvent::Connected
    } else if !already_connected && spec_is_connect_error_line(l) {
        LogLineEvent::ConnectError
    } else if already_connected && spec_is_post_connect_error_line(l) {
        LogLineEvent::PostConnectError
    } else {
        LogLineEvent::Normal
    }
}

fn is_connected_line(l: &Vec<char>) -> (r: bool)
    ensures
        r == spec_is_connected_line(l@),
{
    contains_chars(l, &chars_of("successfully connected to endpoint")) || contains_chars(
        l,
        &chars_of("successfully connected"),
    ) || contains_chars(l, &chars_of("socks listener started")) || (contains_chars(
        l,
        &chars_of("listening"),
    ) && contains_chars(l, &chars_of("socks"))) || (contains_chars(l, &chars_of("socks"))
        && contains_chars(l, &chars_of("bind")))
}

fn is_connect_error_line(l: &Vec<char>) -> (r: bool)
    ensures
        r == spec_is_connect_error_line(l@),
{
    !contains_chars(l, &chars_of("waiting recovery")) && (starts_with_chars(
        l,
        &chars_of("error:"),
    ) || contains_chars(l, &chars_of("failed to")) || contains_chars(l, &chars_of("denied"))
        || contains_chars(l, &chars_of("unauthorized")) || contains_chars(l, &chars_of("refused"))
        || contains_chars(l, &chars_of("failed parsing")) || contains_chars(
        l,
        &chars_of("failed to start listening"),
    ) || contains_chars(l, &chars_of("failed to create listener")) || contains_chars(
        l,
        &chars_of("failed to initialize tunnel"),
    ) || contains_chars(l, &chars_of("couldn't detect active network")) || contains_chars(
        l,
        &chars_of("failed on create vpn"),
    ))
}

fn is_post_connect_error_line(l: &Vec<char>) -> (r: bool)
    ensures
        r == spec_is_post_connect_error_line(l@),
{
    contains_chars(l, &chars_of("health check error")) || contains_chars(
        l,
        &chars_of("response: http/2.0 407"),
    ) || (contains_chars(l, &chars_of("authorization required")) && !contains_chars(
        l,
        &chars_of("proxy-authenticate"),
    )) || (contains_chars(l, &chars_of("connection failed")) && contains_chars(
        l,
        &chars_of("socks"),
    ))
}

/// Classify one line of client output against the current connected flag.
pub fn classify_log_line(line: &str, already_connected: bool) -> (r: LogLineEvent)
    ensures
        r == spec_classify(line@, already_connected),
{
    let lower = lowercase_chars(line);
    if is_connected_line(&lower) {
        return LogLineEvent::Connected;
    }
    if !already_connected && is_connect_error_line(&lower) {
        return LogLineEvent::ConnectError;
    }
    if already_connected && is_post_connect_error_line(&lower) {
        return LogLineEvent::PostConnectError;
    }
    LogLineEvent::Normal
}

/// Mathematical model of the process log.
#[verifier::ext_equal]
pub struct ProcessLogModel {
    pub lines: Seq<Seq<char>>,
    pub connected: bool,
    pub error: Option<Seq<char>>,
    pub post_connect_error: Option<Seq<char>>,
}

impl ProcessLogModel {
    pub open spec fn initial() -> ProcessLogModel {
        ProcessLogModel {
            lines: Seq::empty(),
            connected: false,
            error: None,
            post_connect_error: None,
        }
    }

    pub open spec fn wf(self) -> bool {
        self.lines.len() <= MAX_LOG_LINES
    }
}

/// One push, as a function on the model: classify against the current flag,
/// latch the first error of each phase, set (never clear) the connected
/// flag, append the raw line and evict the oldest line beyond capacity.
pub open spec fn spec_push_line(s: ProcessLogModel, line: Seq<char>) -> ProcessLogModel {
    let ev = spec_classify(line, s.connected);
    let pushed = s.lines.push(line);
    ProcessLogModel {
        lines: if pushed.len() > MAX_LOG_LINES {
            pushed.skip(1)
        } else {
            pushed
        },
        connected: s.connected || ev is Connected,
        error: if ev is ConnectError && s.error is None {
            Some(line)
        } else {
            s.error
        },
        post_connect_error: if ev is PostConnectError && s.post_connect_error is None {
            Some(line)
        } else {
            s.post_connect_error
        },
    }
}

/// Repeated pushes, oldest first.
pub open spec fn spec_push_all(s: ProcessLogModel, lines: Seq<Seq<char>>) -> ProcessLogModel
    decreases lines.len(),
{
    if lines.len() == 0 {
        s
    } else {
        spec_push_all(spec_push_line(s, lines[0]), lines.skip(1))
    }
}

/// Ring buffer of recent client output lines plus the derived session
/// flags. A single background reader thread appends; the controller's
/// poll tick reads — both through one lock held by the caller.
pub struct ProcessLog {
    pub lines: Vec<String>,
    pub connected: bool,
    pub error: Option<String>,
    pub post_connect_error: Option<String>,
}

impl View for ProcessLog {
    type V = ProcessLogModel;

    open spec fn view(&self) -> ProcessLogModel {
        ProcessLogModel {
            lines: self.lines.deep_view(),
            connected: self.connected,
            error: self.error.deep_view(),
            post_connect_error: self.post_connect_error.deep_view(),
        }
    }
}

impl ProcessLog {
    pub fn new() -> (r: ProcessLog)
        ensures
            r@ == ProcessLogModel::initial(),
            r@.wf(),
    {
        let r = ProcessLog {
            lines: Vec::new(),
            connected: false,
            error: None,
            post_connect_error: None,
        };
        proof {
            assert(r@ =~= ProcessLogModel::initial());
        }
        r
    }

    /// Clear all four fields back to their initial values; done at the
    /// start of every connect attempt.
    pub fn reset(&mut self)
        ensures
            final(self)@ == ProcessLogModel::initial(),
            final(self)@.wf(),
    {
        self.lines.clear();
        self.connected = false;
        self.error = None;
        self.post_connect_error = None;
        proof {
            assert(self@ =~= ProcessLogModel::initial());
        }
    }

    /// Classify `line` against the current connected flag, update the
    /// latches, and append the raw line, evicting the oldest beyond the
    /// capacity.
    pub fn push_line(&mut self, line: String)
        requires
            old(self)@.wf(),
        ensures
            final(self)@ == spec_push_line(old(self)@, line@),
            final(self)@.wf(),
    {
        let ghost m1 = spec_push_line(old(self)@, line@);
        match classify_log_line(line.as_str(), self.connected) {
            LogLineEvent::Connected => {
                self.connected = true;
            },
            LogLineEvent::ConnectError => {
                if self.error.is_none() {
                    self.error = Some(line.clone());
                }
            },
            LogLineEvent::PostConnectError => {
                if self.post_connect_error.is_none() {
                    self.post_connect_error = Some(line.clone());
                }
            },
            LogLineEvent::Normal => {},
        }
        let ghost dv_before = self.lines.deep_view();
        self.lines.push(line);
        proof {
            assert(self.lines.deep_view() =~= dv_before.push(line@));
        }
        if self.lines.len() > MAX_LOG_LINES {
            let ghost dv_pushed = self.lines.deep_view();
            self.lines.remove(0);
            proof {
                assert(self.lines.deep_view() =~= dv_pushed.skip(1));
            }
        }
        proof {
            assert(self@ =~= m1);
        }
    }
}

/// Classification is deterministic: it is a function of the line text and
/// the connected flag alone, so equal inputs always yield the same tag.
pub proof fn lemma_classify_deterministic(
    line1: Seq<char>,
    line2: Seq<char>,
    connected1: bool,
    connected2: bool,
)
    requires
        line1 == line2,
        connected1 == connected2,
    ensures
        spec_classify(line1, connected1) == spec_classify(line2, connected2),
{
}

/// The connect-phase error latches the first occurrence: after two lines
/// that both classify as connect-phase errors, the log holds the first.
pub proof fn lemma_error_latches_first(s: ProcessLogModel, line1: Seq<char>, line2: Seq<char>)
    requires
        s.error is None,
        spec_classify(line1, s.connected) is ConnectError,
        spec_classify(line2, spec_push_line(s, line1).connected) is ConnectError,
    ensures
        spec_push_line(spec_push_line(s, line1), line2).error == Some(line1),
{
}

/// The connected flag is monotonic within a session: once set, no later
/// line clears it; only a reset does.
pub proof fn lemma_connected_monotonic(s: ProcessLogModel, line: Seq<char>)
    requires
        s.connected,
    ensures
        spec_push_line(s, line).connected,
{
}

/// The latches are stable: once either error slot holds a line, no later
/// push replaces or clears it; only a reset does.
pub proof fn lemma_latches_stable(s: ProcessLogModel, line: Seq<char>)
    ensures
        s.error is Some ==> spec_push_line(s, line).error == s.error,
        s.post_connect_error is Some ==> spec_push_line(s, line).post_connect_error
            == s.post_connect_error,
{
}

/// The buffer is bounded and order-preserving: pushing any batch of lines
/// leaves exactly the newest `MAX_LOG_LINES` of the concatenation of the
/// old contents and the batch, in order; the oldest excess is evicted.
pub proof fn lemma_buffer_bound(s: ProcessLogModel, lines: Seq<Seq<char>>)
    requires
        s.wf(),
    ensures
        spec_push_all(s, lines).wf(),
        ({
            let all = s.lines + lines;
            let evicted = if all.len() <= MAX_LOG_LINES {
                0
            } else {
                all.len() - MAX_LOG_LINES
            };
            spec_push_all(s, lines).lines =~= all.skip(evicted as int)
        }),
    decreases lines.len(),
{
    if lines.len() == 0 {
        assert(s.lines + lines =~= s.lines);
    } else {
        let s1 = spec_push_line(s, lines[0]);
        let all = s.lines + lines;
        assert(s1.wf());
        lemma_buffer_bound(s1, lines.skip(1));
        let rest = s1.lines + lines.skip(1);
        let e1 = if rest.len() <= MAX_LOG_LINES {
            0int
        } else {
            rest.len() - MAX_LOG_LINES
        };
        assert(spec_push_all(s, lines).lines =~= rest.skip(e1));
        if s.lines.len() + 1 > MAX_LOG_LINES {
            // the first push itself evicted one line
            assert(rest =~= all.skip(1));
            assert(all.skip(1).skip(e1) =~= all.skip(1 + e1));
        } else {
            assert(rest =~= all);
        }
    }
}

} // verus!
