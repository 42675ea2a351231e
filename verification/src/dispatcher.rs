//! The decisions of the single consumer: what is written where for each
//! record, and how the file store is kept.
//!
//! The dispatcher does no input or output. Its caller dequeues the records,
//! writes what the dispatcher hands out, and reports what it wrote and opened.

use vstd::prelude::*;
use crate::clock::{local_formatted, local_rfc3339, utc_formatted};
use crate::file_sink::{paths_of, FileSink, FileSinkView};
use crate::format::{
    endpoint_host,
    endpoint_host_of,
    file_line,
    file_line_of,
    is_log_file_name,
    is_log_file_name_of,
    numbered_file_name_of,
    rotation_file_name,
    rotation_file_name_of,
    syslog_frame,
    syslog_frame_of,
};
use crate::record::{LogMessage, LoggerConfig, RecordView};
use crate::text::is_token;

verus! {

/// The names among `names` that are the logger's own files, in their order.
pub open spec fn log_files_among(names: Seq<Seq<char>>) -> Seq<Seq<char>> {
    names.filter(|name: Seq<char>| is_log_file_name_of(name))
}

/// Picks the logger's own files out of the names found in the log directory,
/// keeping their order.
pub fn select_log_files(found: Vec<String>) -> (kept: Vec<String>)
    ensures
        paths_of(kept@) == log_files_among(paths_of(found@)),
{
    let mut kept: Vec<String> = Vec::new();
    let n: usize = found.len();
    let mut i: usize = 0;
    proof {
        reveal(Seq::filter);
        assert(paths_of(found@).subrange(0, 0) =~= Seq::empty());
        assert(paths_of(kept@) =~= Seq::empty());
    }
    while i < n
        invariant
            n == found@.len(),
            i <= n,
            paths_of(kept@) == log_files_among(paths_of(found@).subrange(0, i as int)),
        decreases n - i,
    {
        let ghost head = paths_of(found@).subrange(0, i + 1);
        let ghost before = paths_of(kept@);
        proof {
            reveal(Seq::filter);
        }
        assert(head.drop_last() =~= paths_of(found@).subrange(0, i as int));
        assert(head.last() == found@[i as int]@);
        if is_log_file_name(found[i].as_str()) {
            kept.push(found[i].clone());
            assert(paths_of(kept@) =~= before.push(found@[i as int]@));
        }
        i += 1;
    }
    assert(paths_of(found@).subrange(0, n as int) =~= paths_of(found@));
    kept
}

/// What the dispatcher knows, as plain values.
pub struct DispatcherView {
    pub sink: FileSinkView,
    pub hostname: Seq<char>,
    pub endpoint: Option<Seq<char>>,
    pub enable_local: bool,
    pub enable_remote: bool,
    /// Whether the connection to the collector stands.
    pub remote_up: bool,
}

/// What is to be written for one record.
pub struct EmissionView {
    pub timestamp: Seq<char>,
    pub file_line: Option<Seq<char>>,
    pub frame: Option<Seq<char>>,
}

impl DispatcherView {
    /// The line for the local file, if local logging is on.
    pub open spec fn file_line_for(self, record: RecordView, timestamp: Seq<char>) -> Option<
        Seq<char>,
    > {
        if self.enable_local {
            Some(file_line_of(timestamp, record.level, record.target, record.body))
        } else {
            None
        }
    }

    /// The frame for the collector, if remote logging is on and the
    /// connection stands.
    pub open spec fn frame_for(self, record: RecordView, timestamp: Seq<char>) -> Option<
        Seq<char>,
    > {
        if self.enable_remote && self.remote_up {
            Some(
                syslog_frame_of(
                    timestamp,
                    self.hostname,
                    record.level,
                    record.target,
                    record.body,
                ),
            )
        } else {
            None
        }
    }

    /// What is written for `record` when it is dequeued at `timestamp`.
    pub open spec fn emission_for(self, record: RecordView, timestamp: Seq<char>) -> EmissionView {
        EmissionView {
            timestamp,
            file_line: self.file_line_for(record, timestamp),
            frame: self.frame_for(record, timestamp),
        }
    }

    /// The address and host to connect to, if a connection is wanted: remote
    /// logging is on and the address names a host.
    pub open spec fn remote_target(self) -> Option<(Seq<char>, Seq<char>)> {
        if self.enable_remote && self.endpoint is Some && endpoint_host_of(self.endpoint->0)
            is Some {
            Some((self.endpoint->0, endpoint_host_of(self.endpoint->0)->0))
        } else {
            None
        }
    }
}

/// What is to be written for one record: the time it was dequeued at, the
/// line for the local file and the frame for the collector. The line goes
/// out before the frame.
pub struct Emission {
    pub timestamp: String,
    pub file_line: Option<String>,
    pub frame: Option<String>,
}

impl View for Emission {
    type V = EmissionView;

    open spec fn view(&self) -> EmissionView {
        EmissionView {
            timestamp: self.timestamp@,
            file_line: match self.file_line {
                Some(l) => Some(l@),
                None => None,
            },
            frame: match self.frame {
                Some(f) => Some(f@),
                None => None,
            },
        }
    }
}

/// One write that the caller makes for a record.
pub enum Output {
    /// Append the line to the newest local file.
    Append(String),
    /// Send the frame to the collector.
    Send(String),
}

/// A write, as plain values.
pub enum OutputView {
    Append(Seq<char>),
    Send(Seq<char>),
}

impl View for Output {
    type V = OutputView;

    open spec fn view(&self) -> OutputView {
        match self {
            Output::Append(line) => OutputView::Append(line@),
            Output::Send(frame) => OutputView::Send(frame@),
        }
    }
}

/// The writes that a list holds, as plain values.
pub open spec fn outputs_of(list: Seq<Output>) -> Seq<OutputView> {
    list.map_values(|o: Output| o@)
}

impl EmissionView {
    /// The writes for the record in the order they are made in: the line for
    /// the local file, where there is one, before the frame for the
    /// collector, where there is one.
    pub open spec fn writes(self) -> Seq<OutputView> {
        let local: Seq<OutputView> = match self.file_line {
            Some(line) => seq![OutputView::Append(line)],
            None => Seq::empty(),
        };
        let remote: Seq<OutputView> = match self.frame {
            Some(frame) => seq![OutputView::Send(frame)],
            None => Seq::empty(),
        };
        local + remote
    }
}

impl Emission {
    /// The writes to make for the record, in order: the line goes to the
    /// file before the frame is sent.
    pub fn into_writes(self) -> (writes: Vec<Output>)
        ensures
            outputs_of(writes@) == self@.writes(),
    {
        let ghost whole = self@;
        let Emission { timestamp: _, file_line, frame } = self;
        let mut writes: Vec<Output> = Vec::new();
        match file_line {
            Some(line) => {
                writes.push(Output::Append(line));
            },
            None => {},
        }
        match frame {
            Some(frame) => {
                writes.push(Output::Send(frame));
            },
            None => {},
        }
        assert(outputs_of(writes@) =~= whole.writes());
        writes
    }
}

/// A record that goes to both destinations is written to the file first:
/// its writes are the line and then the frame, and nothing else.
pub proof fn lemma_line_before_frame(d: DispatcherView, record: RecordView, timestamp: Seq<char>)
    requires
        d.enable_local,
        d.enable_remote && d.remote_up,
    ensures
        d.emission_for(record, timestamp).writes() == seq![
            OutputView::Append(
                file_line_of(timestamp, record.level, record.target, record.body),
            ),
            OutputView::Send(
                syslog_frame_of(timestamp, d.hostname, record.level, record.target, record.body),
            ),
        ],
{
    assert(d.emission_for(record, timestamp).writes() =~= seq![
        OutputView::Append(file_line_of(timestamp, record.level, record.target, record.body)),
        OutputView::Send(
            syslog_frame_of(timestamp, d.hostname, record.level, record.target, record.body),
        ),
    ]);
}

/// The state of the single consumer.
pub struct Dispatcher {
    config: LoggerConfig,
    sink: FileSink,
    remote_up: bool,
}

impl View for Dispatcher {
    type V = DispatcherView;

    closed spec fn view(&self) -> DispatcherView {
        DispatcherView {
            sink: self.sink@,
            hostname: self.config.hostname@,
            endpoint: match self.config.papertrail_endpoint {
                Some(e) => Some(e@),
                None => None,
            },
            enable_local: self.config.enable_local,
            enable_remote: self.config.enable_papertrail,
            remote_up: self.remote_up,
        }
    }
}

/// The view of an optional address.
pub open spec fn endpoint_view(endpoint: Option<String>) -> Option<Seq<char>> {
    match endpoint {
        Some(e) => Some(e@),
        None => None,
    }
}

/// Names the file that a rotation at the time of the call opens:
/// `log_`, the local time to the second with its zone offset, and `.log`.
pub fn fresh_file_name() -> (name: String)
    ensures
        exists|stamp: Seq<char>| is_token(stamp) && name@ == #[trigger] rotation_file_name_of(stamp),
{
    let stamp = local_formatted("%Y%m%dT%H%M%S%z");
    rotation_file_name(stamp.as_str())
}

/// Renders `record` for the collector with the time of the call in UTC, to
/// the millisecond. Hands back the stamp and the frame.
pub fn frame_now(hostname: &str, record: &LogMessage) -> (stamped: (String, String))
    ensures
        is_token(stamped.0@),
        stamped.1@ == syslog_frame_of(
            stamped.0@,
            hostname@,
            record.level,
            record.target@,
            record.body@,
        ),
{
    let timestamp = utc_formatted("%Y-%m-%dT%H:%M:%S%.3fZ");
    let frame = syslog_frame(
        timestamp.as_str(),
        hostname,
        record.level,
        record.target.as_str(),
        record.body.as_str(),
    );
    (timestamp, frame)
}

impl Dispatcher {
    /// A dispatcher at startup. `found` holds the names of the files found in
    /// the log directory; with local logging on, those that are the logger's
    /// own seed the file store, in the order given. No file is open yet and
    /// no connection stands.
    pub fn new(config: LoggerConfig, found: Vec<String>) -> (d: Dispatcher)
        ensures
            d@.sink == (FileSinkView {
                files: if config.enable_local {
                    log_files_among(paths_of(found@))
                } else {
                    Seq::empty()
                },
                current_size: 0,
                max_file_size: config.max_file_size as nat,
                max_files: config.max_files as nat,
            }),
            d@.hostname == config.hostname@,
            d@.endpoint == endpoint_view(config.papertrail_endpoint),
            d@.enable_local == config.enable_local,
            d@.enable_remote == config.enable_papertrail,
            !d@.remote_up,
    {
        let seed = if config.enable_local {
            select_log_files(found)
        } else {
            Vec::new()
        };
        assert(!config.enable_local ==> paths_of(seed@) =~= Seq::empty());
        let sink = FileSink::new(config.max_file_size, config.max_files, seed);
        Dispatcher { config, sink, remote_up: false }
    }

    /// The books of the file store.
    pub fn sink(&self) -> (sink: &FileSink)
        ensures
            sink@ == self@.sink,
    {
        &self.sink
    }

    /// Whether records go to the local files.
    pub fn local_enabled(&self) -> (on: bool)
        ensures
            on == self@.enable_local,
    {
        self.config.enable_local
    }

    /// Whether records go to the collector.
    pub fn remote_enabled(&self) -> (on: bool)
        ensures
            on == self@.enable_remote,
    {
        self.config.enable_papertrail
    }

    /// Whether the connection to the collector stands.
    pub fn remote_connected(&self) -> (up: bool)
        ensures
            up == self@.remote_up,
    {
        self.remote_up
    }

    /// Where to connect at startup, as the address and the host named in it,
    /// or `None` where no connection is wanted.
    pub fn remote_target(&self) -> (target: Option<(String, String)>)
        ensures
            match target {
                Some(t) => self@.remote_target() == Some((t.0@, t.1@)),
                None => self@.remote_target() is None,
            },
    {
        if !self.config.enable_papertrail {
            return None;
        }
        match &self.config.papertrail_endpoint {
            Some(endpoint) => match endpoint_host(endpoint.as_str()) {
                Some(host) => Some((endpoint.clone(), host)),
                None => None,
            },
            None => None,
        }
    }

    /// Books whether the connection to the collector stands.
    pub fn set_remote_connected(&mut self, up: bool)
        ensures
            final(self)@ == (DispatcherView { remote_up: up, ..old(self)@ }),
    {
        self.remote_up = up;
    }

    /// What is to be written for `record`, dequeued at `timestamp`.
    pub fn emit_at(&self, record: &LogMessage, timestamp: &str) -> (e: Emission)
        ensures
            e@ == self@.emission_for(record@, timestamp@),
    {
        let line = if self.config.enable_local {
            Some(file_line(timestamp, record.level, record.target.as_str(), record.body.as_str()))
        } else {
            None
        };
        let frame = if self.config.enable_papertrail && self.remote_up {
            Some(
                syslog_frame(
                    timestamp,
                    self.config.hostname.as_str(),
                    record.level,
                    record.target.as_str(),
                    record.body.as_str(),
                ),
            )
        } else {
            None
        };
        Emission { timestamp: String::from_str(timestamp), file_line: line, frame }
    }

    /// What is to be written for `record`, dequeued now: the local time is
    /// read once and stands in both the line and the frame.
    pub fn emit(&self, record: &LogMessage) -> (e: Emission)
        ensures
            e@ == self@.emission_for(record@, e@.timestamp),
            is_token(e@.timestamp),
    {
        let timestamp = local_rfc3339();
        self.emit_at(record, timestamp.as_str())
    }

    /// Names the file that a rotation at the time of the call opens, so that
    /// no known file has the name: `log_`, the local time to the second with
    /// its zone offset, and `.log`, with `_1`, `_2` and so on after the time
    /// where the names before are taken.
    pub fn next_file_name(&self) -> (name: String)
        ensures
            !self@.sink.files.contains(name@),
            exists|stamp: Seq<char>, k: nat|
                is_token(stamp) && #[trigger] self@.sink.first_free(stamp, k) && name@
                    == numbered_file_name_of(stamp, k),
    {
        let stamp = local_formatted("%Y%m%dT%H%M%S%z");
        let name = self.sink.fresh_name(stamp.as_str());
        proof {
            let k = choose|k: nat| #[trigger]
                self.sink@.first_free(stamp@, k) && name@ == numbered_file_name_of(stamp@, k);
            assert(self@.sink.first_free(stamp@, k));
        }
        name
    }

    /// Books `bytes` appended to the newest file and tells whether another
    /// file is due.
    pub fn wrote(&mut self, bytes: u64) -> (due: bool)
        requires
            old(self)@.sink.current_size + bytes <= u64::MAX,
        ensures
            final(self)@ == (DispatcherView {
                sink: old(self)@.sink.written(bytes as nat),
                ..old(self)@
            }),
            due == final(self)@.sink.over_threshold(),
    {
        self.sink.record_write(bytes)
    }

    /// Books that the file at `path` has been opened as the newest and hands
    /// back the files to delete, oldest first.
    pub fn opened(&mut self, path: String) -> (retired: Vec<String>)
        ensures
            final(self)@ == (DispatcherView {
                sink: old(self)@.sink.rotated(path@),
                ..old(self)@
            }),
            paths_of(retired@) == old(self)@.sink.retired(path@),
            final(self)@.sink.within_retention(),
    {
        self.sink.rotate(path)
    }
}

impl DispatcherView {
    /// The lines written to the local files for the records of `batch`, each
    /// with the time it was dequeued at, in the order written.
    pub open spec fn lines_for(self, batch: Seq<(RecordView, Seq<char>)>) -> Seq<Seq<char>>
        decreases batch.len(),
    {
        if batch.len() == 0 {
            Seq::empty()
        } else {
            let rest = self.lines_for(batch.drop_last());
            match self.file_line_for(batch.last().0, batch.last().1) {
                Some(line) => rest.push(line),
                None => rest,
            }
        }
    }

    /// The frames sent to the collector for the records of `batch`, in the
    /// order sent.
    pub open spec fn frames_for(self, batch: Seq<(RecordView, Seq<char>)>) -> Seq<Seq<char>>
        decreases batch.len(),
    {
        if batch.len() == 0 {
            Seq::empty()
        } else {
            let rest = self.frames_for(batch.drop_last());
            match self.frame_for(batch.last().0, batch.last().1) {
                Some(frame) => rest.push(frame),
                None => rest,
            }
        }
    }
}

/// Records leave in the order they were dequeued in. A destination that is
/// on gets one line for each record of the batch, the line of the record
/// at the same place in the batch; one that is off gets none. So the lines
/// of the files and the frames of the collector follow the order of the
/// queue, and where both are on they follow each other's.
pub proof fn lemma_emission_order(d: DispatcherView, batch: Seq<(RecordView, Seq<char>)>)
    ensures
        d.enable_local ==> d.lines_for(batch).len() == batch.len(),
        d.enable_local ==> forall|i: int|
            0 <= i < batch.len() ==> #[trigger] d.lines_for(batch)[i] == file_line_of(
                batch[i].1,
                batch[i].0.level,
                batch[i].0.target,
                batch[i].0.body,
            ),
        !d.enable_local ==> d.lines_for(batch).len() == 0,
        d.enable_remote && d.remote_up ==> d.frames_for(batch).len() == batch.len(),
        d.enable_remote && d.remote_up ==> forall|i: int|
            0 <= i < batch.len() ==> #[trigger] d.frames_for(batch)[i] == syslog_frame_of(
                batch[i].1,
                d.hostname,
                batch[i].0.level,
                batch[i].0.target,
                batch[i].0.body,
            ),
        !(d.enable_remote && d.remote_up) ==> d.frames_for(batch).len() == 0,
    decreases batch.len(),
{
    if batch.len() > 0 {
        lemma_emission_order(d, batch.drop_last());
    }
}

} // verus!
