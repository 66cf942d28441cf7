//! The command-line tools: URL validation, the texts of the live monitor and
//! its state. The terminal, the keyboard and the network are handled by the
//! application.

use vstd::prelude::*;
use vstd::string::StringSliceAdditionalSpecFns;
use vstd::utf8::encode_utf8;
use std::time::Instant;
use crate::builtin::{MethodMetrics, MetricsSnapshot, NodeMetrics, ServerInfo, ServerType};
use crate::clock::instant_now;
use crate::error::{error_message, MadrpcError};
use crate::text::{bytes_start_with, decimal, push_str, str_starts_with, u64_to_decimal};

verus! {

broadcast use vstd::seq_lib::group_to_multiset_ensures;

/// Whether `url` is an HTTP URL: it starts with "http://" or "https://".
pub open spec fn is_http_url(url: Seq<char>) -> bool {
    bytes_start_with(encode_utf8(url), encode_utf8("http://"@)) || bytes_start_with(encode_utf8(url), encode_utf8("https://"@))
}

/// Checks that `url` (described as `description` in the message) starts
/// with http:// or https://.
pub fn validate_http_url(url: &str, description: &str) -> (r: Result<(), String>)
    ensures
        is_http_url(url@) <==> r is Ok,
        r matches Err(m) ==> m@ == "Invalid "@ + description@ + ": '"@ + url@ + "' must start with http:// or https://"@,
{
    if str_starts_with(url, "http://") || str_starts_with(url, "https://") {
        Ok(())
    } else {
        let mut m = "Invalid ".to_owned();
        push_str(&mut m, description);
        push_str(&mut m, ": '");
        push_str(&mut m, url);
        push_str(&mut m, "' must start with http:// or https://");
        Err(m)
    }
}

/// A duration in milliseconds as the monitor shows it: "850ms", "42s",
/// "3m 20s" or "2h 5m".
pub open spec fn duration_text(ms: nat) -> Seq<char> {
    if ms < 1000 {
        decimal(ms) + "ms"@
    } else if ms < 60_000 {
        decimal(ms / 1000) + "s"@
    } else if ms < 3_600_000 {
        decimal(ms / 60_000) + "m "@ + decimal((ms % 60_000) / 1000) + "s"@
    } else {
        decimal(ms / 3_600_000) + "h "@ + decimal((ms % 3_600_000) / 60_000) + "m"@
    }
}

/// Renders a duration in milliseconds (see `duration_text`).
pub fn format_duration_ms(ms: u64) -> (s: String)
    ensures
        s@ == duration_text(ms as nat),
{
    if ms < 1000 {
        let mut s = u64_to_decimal(ms);
        push_str(&mut s, "ms");
        s
    } else if ms < 60_000 {
        let mut s = u64_to_decimal(ms / 1000);
        push_str(&mut s, "s");
        s
    } else if ms < 3_600_000 {
        let mut s = u64_to_decimal(ms / 60_000);
        push_str(&mut s, "m ");
        let secs = u64_to_decimal((ms % 60_000) / 1000);
        push_str(&mut s, secs.as_str());
        push_str(&mut s, "s");
        s
    } else {
        let mut s = u64_to_decimal(ms / 3_600_000);
        push_str(&mut s, "h ");
        let mins = u64_to_decimal((ms % 3_600_000) / 60_000);
        push_str(&mut s, mins.as_str());
        push_str(&mut s, "m");
        s
    }
}

/// A latency in microseconds as the monitor's tables show it below one
/// second: "-" for no latency, "850μs", or whole milliseconds "42ms"; `None`
/// from one second on, where the value is shown in seconds with one decimal.
pub open spec fn latency_text(us: nat) -> Option<Seq<char>> {
    if us == 0 {
        Some("-"@)
    } else if us < 1000 {
        Some(decimal(us) + "μs"@)
    } else if us < 1_000_000 {
        Some(decimal(us / 1000) + "ms"@)
    } else {
        None
    }
}

/// Renders a latency below one second (see `latency_text`); `None` from one
/// second on.
pub fn format_latency_below_second(us: u64) -> (r: Option<String>)
    ensures
        match latency_text(us as nat) {
            Some(t) => r matches Some(s) && s@ == t,
            None => r is None,
        },
{
    if us == 0 {
        Some("-".to_owned())
    } else if us < 1000 {
        let mut s = u64_to_decimal(us);
        push_str(&mut s, "μs");
        Some(s)
    } else if us < 1_000_000 {
        let mut s = u64_to_decimal(us / 1000);
        push_str(&mut s, "ms");
        Some(s)
    } else {
        None
    }
}

/// The uptime as the summary shows it: "2h 5m", "3m 20s" or "42s".
pub open spec fn uptime_text_of(uptime_ms: nat) -> Seq<char> {
    let secs = uptime_ms / 1000;
    let mins = secs / 60;
    let hours = mins / 60;
    if hours > 0 {
        decimal(hours) + "h "@ + decimal(mins % 60) + "m"@
    } else if mins > 0 {
        decimal(mins) + "m "@ + decimal(secs % 60) + "s"@
    } else {
        decimal(secs) + "s"@
    }
}

/// Renders an uptime in milliseconds (see `uptime_text_of`).
pub fn uptime_text(uptime_ms: u64) -> (s: String)
    ensures
        s@ == uptime_text_of(uptime_ms as nat),
{
    let secs = uptime_ms / 1000;
    let mins = secs / 60;
    let hours = mins / 60;
    if hours > 0 {
        let mut s = u64_to_decimal(hours);
        push_str(&mut s, "h ");
        let m = u64_to_decimal(mins % 60);
        push_str(&mut s, m.as_str());
        push_str(&mut s, "m");
        s
    } else if mins > 0 {
        let mut s = u64_to_decimal(mins);
        push_str(&mut s, "m ");
        let t = u64_to_decimal(secs % 60);
        push_str(&mut s, t.as_str());
        push_str(&mut s, "s");
        s
    } else {
        let mut s = u64_to_decimal(secs);
        push_str(&mut s, "s");
        s
    }
}

/// When a node last received a request, as the node table shows it:
/// "Never" for no request, else the time elapsed since (zero if the
/// request lies in the future).
pub fn last_request_text(now_ms: u64, last_request_ms: u64) -> (s: String)
    ensures
        last_request_ms == 0 ==> s@ == "Never"@,
        last_request_ms != 0 ==> s@ == duration_text(
            if now_ms >= last_request_ms { (now_ms - last_request_ms) as nat } else { 0 },
        ),
{
    if last_request_ms == 0 {
        "Never".to_owned()
    } else {
        format_duration_ms(now_ms.saturating_sub(last_request_ms))
    }
}

/// Rows of a table ordered by a count, largest first.
pub trait CountKey {
    /// The count the rows are ordered by.
    spec fn count_key(&self) -> u64;

    /// The count the rows are ordered by.
    fn get_count_key(&self) -> (k: u64)
        ensures
            k == self.count_key();
}

impl CountKey for NodeMetrics {
    open spec fn count_key(&self) -> u64 {
        self.request_count
    }

    fn get_count_key(&self) -> (k: u64) {
        self.request_count
    }
}

impl CountKey for (String, MethodMetrics) {
    open spec fn count_key(&self) -> u64 {
        self.1.call_count
    }

    fn get_count_key(&self) -> (k: u64) {
        self.1.call_count
    }
}

/// The rows are ordered by count, largest first.
pub open spec fn by_count_desc<T: CountKey>(s: Seq<T>) -> bool {
    forall|i: int, j: int| 0 <= i < j < s.len() ==> s[i].count_key() >= s[j].count_key()
}

/// The rows of `v` ordered by count, largest first.
pub fn sort_by_count_desc<T: CountKey>(v: Vec<T>) -> (r: Vec<T>)
    ensures
        by_count_desc(r@),
        r@.to_multiset() == v@.to_multiset(),
{
    let ghost orig = v@;
    let mut v = v;
    let mut out: Vec<T> = Vec::new();
    proof {
        assert(out@.to_multiset() =~= vstd::multiset::Multiset::empty());
        assert(v@.to_multiset().add(out@.to_multiset()) =~= orig.to_multiset());
    }
    while v.len() > 0
        invariant
            by_count_desc(out@),
            v@.to_multiset().add(out@.to_multiset()) == orig.to_multiset(),
        decreases v@.len(),
    {
        let ghost before = v@;
        let x = v.pop().unwrap();
        proof {
            assert(before =~= v@.push(x));
        }
        let key = x.get_count_key();
        let mut j: usize = 0;
        while j < out.len() && out[j].get_count_key() > key
            invariant
                j <= out@.len(),
                forall|k: int| 0 <= k < j ==> out@[k].count_key() > key,
            decreases out@.len() - j,
        {
            j = j + 1;
        }
        let ghost prev = out@;
        out.insert(j, x);
        proof {
            assert(out@ == prev.insert(j as int, x));
            assert forall|a: int, b: int| 0 <= a < b < out@.len() implies out@[a].count_key() >= out@[b].count_key() by {
                if j < prev.len() {
                    assert(prev[j as int].count_key() <= key);
                }
                if b < j {
                    assert(out@[a] == prev[a] && out@[b] == prev[b]);
                } else if b == j {
                    assert(out@[a] == prev[a]);
                } else if a == j {
                    assert(out@[b] == prev[b - 1]);
                    assert(prev[j as int].count_key() <= key);
                    if b - 1 > j {
                        assert(prev[j as int].count_key() >= prev[b - 1].count_key());
                    }
                } else if a < j {
                    assert(out@[a] == prev[a] && out@[b] == prev[b - 1]);
                } else {
                    assert(out@[a] == prev[a - 1] && out@[b] == prev[b - 1]);
                }
            }
            assert(v@.to_multiset().add(out@.to_multiset()) =~= orig.to_multiset()) by {
                assert(before.to_multiset() == v@.to_multiset().insert(x));
                assert(out@.to_multiset() == prev.to_multiset().insert(x));
            }
        }
    }
    proof {
        assert(v@.to_multiset() =~= vstd::multiset::Multiset::empty());
        assert(out@.to_multiset() =~= orig.to_multiset());
    }
    out
}

/// What fetching a value from the monitored server gave.
#[derive(Debug)]
pub enum FetchOutcome<T> {
    /// The value
    Fetched(T),
    /// The call failed
    CallFailed(MadrpcError),
    /// The answer could not be read (the reader's message)
    ParseFailed(String),
}

/// The state of the live monitor.
#[derive(Debug)]
pub struct TopApp {
    server_address: String,
    server_type: Option<ServerType>,
    current_metrics: Option<MetricsSnapshot>,
    error_message: Option<String>,
    last_update: Option<Instant>,
    interval_ms: u64,
    should_quit: bool,
}

/// The abstract state of the monitor.
pub ghost struct TopView {
    pub server_address: Seq<char>,
    pub server_type: Option<ServerType>,
    pub has_metrics: bool,
    pub error_message: Option<Seq<char>>,
    pub updated: bool,
    pub interval_ms: u64,
    pub should_quit: bool,
}

impl View for TopApp {
    type V = TopView;

    closed spec fn view(&self) -> TopView {
        TopView {
            server_address: self.server_address@,
            server_type: self.server_type,
            has_metrics: self.current_metrics is Some,
            error_message: match self.error_message {
                Some(m) => Some(m@),
                None => None,
            },
            updated: self.last_update is Some,
            interval_ms: self.interval_ms,
            should_quit: self.should_quit,
        }
    }
}

impl TopApp {
    /// The metrics shown, if any.
    pub closed spec fn metrics_spec(&self) -> Option<MetricsSnapshot> {
        self.current_metrics
    }

    /// A monitor of `server_address` refreshing every `interval_ms`, with
    /// nothing fetched yet.
    pub fn new(server_address: String, interval_ms: u64) -> (app: Self)
        ensures
            app@ == (TopView {
                server_address: server_address@,
                server_type: None,
                has_metrics: false,
                error_message: None,
                updated: false,
                interval_ms,
                should_quit: false,
            }),
    {
        TopApp {
            server_address,
            server_type: None,
            current_metrics: None,
            error_message: None,
            last_update: None,
            interval_ms,
            should_quit: false,
        }
    }

    /// Handles a key press (`None` for keys that are not characters): 'q'
    /// or 'Q' asks to quit.
    pub fn handle_key(&mut self, key: Option<char>)
        ensures
            final(self)@ == (TopView {
                should_quit: old(self)@.should_quit || key == Some('q') || key == Some('Q'),
                ..old(self)@
            }),
            final(self).metrics_spec() == old(self).metrics_spec(),
    {
        match key {
            Some('q') | Some('Q') => {
                self.should_quit = true;
            },
            _ => {},
        }
    }

    /// Takes in the answer to `_info`: the server type on success, else an
    /// error message.
    pub fn on_info(&mut self, outcome: FetchOutcome<ServerInfo>)
        ensures
            final(self).metrics_spec() == old(self).metrics_spec(),
            match outcome {
                FetchOutcome::Fetched(info) => final(self)@ == (TopView {
                    server_type: Some(info.server_type),
                    error_message: None,
                    ..old(self)@
                }),
                FetchOutcome::CallFailed(e) => final(self)@ == (TopView {
                    error_message: Some("Failed to connect to server: "@ + error_message(e)),
                    ..old(self)@
                }),
                FetchOutcome::ParseFailed(t) => final(self)@ == (TopView {
                    error_message: Some("Failed to parse server info: "@ + t@),
                    ..old(self)@
                }),
            },
    {
        match outcome {
            FetchOutcome::Fetched(info) => {
                self.server_type = Some(info.server_type);
                self.error_message = None;
            },
            FetchOutcome::CallFailed(e) => {
                let mut m = "Failed to connect to server: ".to_owned();
                let t = e.message();
                push_str(&mut m, t.as_str());
                self.error_message = Some(m);
            },
            FetchOutcome::ParseFailed(t) => {
                let mut m = "Failed to parse server info: ".to_owned();
                push_str(&mut m, t.as_str());
                self.error_message = Some(m);
            },
        }
    }

    /// Takes in the answer to `_metrics`: the metrics shown (and the time
    /// of the update) on success, else an error message.
    pub fn on_metrics(&mut self, outcome: FetchOutcome<MetricsSnapshot>)
        ensures
            match outcome {
                FetchOutcome::Fetched(m) => {
                    &&& final(self)@ == (TopView { has_metrics: true, updated: true, error_message: None, ..old(self)@ })
                    &&& final(self).metrics_spec() == Some(m)
                },
                FetchOutcome::CallFailed(e) => {
                    &&& final(self)@ == (TopView {
                        error_message: Some("Failed to fetch metrics: "@ + error_message(e)),
                        ..old(self)@
                    })
                    &&& final(self).metrics_spec() == old(self).metrics_spec()
                },
                FetchOutcome::ParseFailed(t) => {
                    &&& final(self)@ == (TopView {
                        error_message: Some("Failed to parse metrics: "@ + t@),
                        ..old(self)@
                    })
                    &&& final(self).metrics_spec() == old(self).metrics_spec()
                },
            },
    {
        match outcome {
            FetchOutcome::Fetched(m) => {
                self.current_metrics = Some(m);
                self.last_update = Some(instant_now());
                self.error_message = None;
            },
            FetchOutcome::CallFailed(e) => {
                let mut m = "Failed to fetch metrics: ".to_owned();
                let t = e.message();
                push_str(&mut m, t.as_str());
                self.error_message = Some(m);
            },
            FetchOutcome::ParseFailed(t) => {
                let mut m = "Failed to parse metrics: ".to_owned();
                push_str(&mut m, t.as_str());
                self.error_message = Some(m);
            },
        }
    }

    /// Whether the user asked to quit.
    pub fn should_quit(&self) -> (r: bool)
        ensures
            r == self@.should_quit,
    {
        self.should_quit
    }

    /// The monitored address.
    pub fn server_address(&self) -> (r: &String)
        ensures
            r@ == self@.server_address,
    {
        &self.server_address
    }

    /// The detected server type, if any.
    pub fn server_type(&self) -> (r: Option<ServerType>)
        ensures
            r == self@.server_type,
    {
        self.server_type
    }

    /// The metrics shown, if any.
    pub fn current_metrics(&self) -> (r: &Option<MetricsSnapshot>)
        ensures
            *r == self.metrics_spec(),
    {
        &self.current_metrics
    }

    /// The last error, if any.
    pub fn error_message(&self) -> (r: &Option<String>)
        ensures
            match *r {
                Some(m) => self@.error_message == Some(m@),
                None => self@.error_message is None,
            },
    {
        &self.error_message
    }

    /// The refresh interval in milliseconds.
    pub fn interval_ms(&self) -> (r: u64)
        ensures
            r == self@.interval_ms,
    {
        self.interval_ms
    }
}

} // verus!
