//! One monitor: a followed file, a pattern, and the decisions between the
//! two. The caller does what a decision asks and reports what came of it.
use crate::config::{Exec, MonitorConfig};
use crate::datum::Table;
use crate::dispatch::{dispatch, invocations_of, Invocation, InvocationView};
use crate::pattern::{group_names, match_groups};
use crate::tail::{chunk_bytes, cursor_after, Growth, TailState, NEWLINE};
use std::time::Duration;
use vstd::prelude::*;
use vstd::slice::{slice_subrange, slice_to_vec};
use vstd::utf8::{decode_utf8, encode_utf8_decode_utf8, valid_utf8};

verus! {

/// How long the file may stay away after a rotation, in nanoseconds.
pub const RECOVERY_LIMIT: u128 = 1_000_000_000;

/// The pause between two attempts to open the file again, in milliseconds.
pub const RETRY_PAUSE: u64 = 10;

#[derive(Clone, Copy, Debug, PartialEq, Eq, Structural)]
pub enum RenameMode {
    Any,
    To,
    From,
    Both,
    Other,
}

#[derive(Clone, Copy, Debug, PartialEq, Eq, Structural)]
pub enum MetadataKind {
    Any,
    AccessTime,
    WriteTime,
    Permissions,
    Ownership,
    Extended,
    Other,
}

#[derive(Clone, Copy, Debug, PartialEq, Eq, Structural)]
pub enum ModifyKind {
    Any,
    Data,
    Metadata(MetadataKind),
    Name(RenameMode),
    Other,
}

/// What a file-system watch says has happened to the file.
#[derive(Clone, Copy, Debug, PartialEq, Eq, Structural)]
pub enum EventKind {
    Any,
    Access,
    Create,
    Modify(ModifyKind),
    Remove,
    Other,
}

/// The file was renamed away, or its metadata changed in a way the watch
/// cannot tell: the path may name another file now.
pub open spec fn is_rotation(kind: EventKind) -> bool {
    kind == EventKind::Modify(ModifyKind::Name(RenameMode::From)) || kind == EventKind::Modify(
        ModifyKind::Metadata(MetadataKind::Any),
    )
}

pub fn signals_rotation(kind: EventKind) -> (rotated: bool)
    ensures
        rotated == is_rotation(kind),
{
    match kind {
        EventKind::Modify(ModifyKind::Name(RenameMode::From)) => true,
        EventKind::Modify(ModifyKind::Metadata(MetadataKind::Any)) => true,
        _ => false,
    }
}

/// Why a monitor has stopped for good.
#[derive(Clone, Copy, Debug, PartialEq, Eq, Structural)]
pub enum Stopped {
    /// The file could not be opened or watched in the first place.
    Setup,
    /// The file was rotated away and did not come back in time.
    FileMoved,
    /// Reading the file or watching it failed.
    Io,
}

/// Where a monitor stands.
#[derive(Clone, Copy, Debug, PartialEq, Eq, Structural)]
pub enum Phase {
    /// The file is not open yet.
    Starting,
    /// Waiting for the file to change or the timer to tick.
    Watching,
    /// Asked for the length of the file.
    Measuring,
    /// Asked for the last byte of a file of this length.
    Probing(u64),
    /// Asked for the new content of a file of this length.
    Reading(u64),
    /// The file was rotated; it is being opened again.
    Recovering,
    Failed(Stopped),
}

/// What there is to say about a turn that ends in waiting.
#[derive(Clone, Copy, Debug, PartialEq, Eq, Structural)]
pub enum Remark {
    Nothing,
    /// The file was truncated.
    Truncated,
    /// The new content does not end in a newline yet.
    Incomplete,
    /// The new content is not UTF-8 and was skipped.
    Undecodable,
    /// The watch reported an error.
    WatchError,
    /// The report fits nothing that was asked.
    Unexpected,
}

/// What the caller reports to the monitor.
#[derive(Clone, Debug, PartialEq, Eq)]
pub enum Event {
    /// The watch saw something happen to the file.
    Changed(EventKind),
    /// The polling timer ticked.
    Tick,
    /// The watch reported an error.
    WatchError,
    /// The file has this length.
    Length(u64),
    /// The byte that was asked for.
    LastByte(u8),
    /// The content that was asked for.
    Chunk(Vec<u8>),
    /// The path was opened again and is watched again.
    Reopened,
    /// The path could not be opened, so many nanoseconds after the rotation
    /// was noticed.
    ReopenFailed(u128),
    /// Opening the file, reading it or watching it failed.
    Failure,
}

/// What the monitor asks of the caller.
#[derive(Clone, Debug, PartialEq, Eq)]
pub enum Action {
    /// Open the file for reading, find its length, watch its path (not what
    /// is below it), then call `start`; report a failure where that fails.
    Open,
    /// Wait for the watch or the timer, and report which.
    Wait(Remark),
    /// Report the length of the file.
    Measure,
    /// Report the byte at this offset.
    ReadLastByte(u64),
    /// Report so many bytes from this offset on.
    ReadChunk(u64, u64),
    /// Stop watching the path, note the time, try to open the path again and
    /// to watch it, and report.
    Reopen,
    /// Wait so many milliseconds, then try again to open the path and to
    /// watch it, and report.
    Retry(u64),
    /// Run the command once for each invocation, in order, each to its end;
    /// then wait for the watch or the timer.
    Run(Vec<Invocation>),
    /// Give up.
    Stop(Stopped),
}

pub enum ActionView {
    Open,
    Wait(Remark),
    Measure,
    ReadLastByte(u64),
    ReadChunk(u64, u64),
    Reopen,
    Retry(u64),
    Run(Seq<InvocationView>),
    Stop(Stopped),
}

impl View for Action {
    type V = ActionView;

    open spec fn view(&self) -> ActionView {
        match self {
            Action::Open => ActionView::Open,
            Action::Wait(remark) => ActionView::Wait(*remark),
            Action::Measure => ActionView::Measure,
            Action::ReadLastByte(offset) => ActionView::ReadLastByte(*offset),
            Action::ReadChunk(offset, count) => ActionView::ReadChunk(*offset, *count),
            Action::Reopen => ActionView::Reopen,
            Action::Retry(pause) => ActionView::Retry(*pause),
            Action::Run(invocations) => ActionView::Run(
                invocations@.map_values(|one: Invocation| one@),
            ),
            Action::Stop(why) => ActionView::Stop(*why),
        }
    }
}

/// A monitor as the decisions see it.
pub struct MonitorView {
    pub phase: Phase,
    pub cursor: int,
}

/// In a phase that holds a length, the cursor is below it.
pub open spec fn sound(state: MonitorView) -> bool {
    match state.phase {
        Phase::Probing(length) => 0 <= state.cursor < length,
        Phase::Reading(length) => 0 <= state.cursor < length,
        _ => 0 <= state.cursor,
    }
}

/// What a monitor asks again when a report fits nothing it asked.
pub open spec fn pending(state: MonitorView) -> ActionView {
    match state.phase {
        Phase::Starting => ActionView::Open,
        Phase::Watching => ActionView::Wait(Remark::Unexpected),
        Phase::Measuring => ActionView::Measure,
        Phase::Probing(length) => ActionView::ReadLastByte((length - 1) as u64),
        Phase::Reading(length) => ActionView::ReadChunk(
            state.cursor as u64,
            (length - state.cursor - 1) as u64,
        ),
        Phase::Recovering => ActionView::Retry(RETRY_PAUSE),
        Phase::Failed(why) => ActionView::Stop(why),
    }
}

/// One decision: where the monitor stands after a report, and what it asks.
pub open spec fn next(state: MonitorView, pattern: regex::Regex, event: Event) -> (
    MonitorView,
    ActionView,
) {
    let stay = (state, pending(state));
    match state.phase {
        Phase::Failed(_) => stay,
        Phase::Starting => match event {
            Event::Failure => (
                MonitorView { phase: Phase::Failed(Stopped::Setup), cursor: state.cursor },
                ActionView::Stop(Stopped::Setup),
            ),
            _ => stay,
        },
        _ => match event {
            Event::Failure => (
                MonitorView { phase: Phase::Failed(Stopped::Io), cursor: state.cursor },
                ActionView::Stop(Stopped::Io),
            ),
            _ => match state.phase {
                Phase::Watching => match event {
                    Event::Changed(kind) => if is_rotation(kind) {
                        (
                            MonitorView { phase: Phase::Recovering, cursor: state.cursor },
                            ActionView::Reopen,
                        )
                    } else {
                        (
                            MonitorView { phase: Phase::Measuring, cursor: state.cursor },
                            ActionView::Measure,
                        )
                    },
                    Event::Tick => (
                        MonitorView { phase: Phase::Measuring, cursor: state.cursor },
                        ActionView::Measure,
                    ),
                    Event::WatchError => (state, ActionView::Wait(Remark::WatchError)),
                    _ => stay,
                },
                Phase::Recovering => match event {
                    Event::Reopened => (
                        MonitorView { phase: Phase::Measuring, cursor: 0 },
                        ActionView::Measure,
                    ),
                    Event::ReopenFailed(elapsed) => if elapsed > RECOVERY_LIMIT {
                        (
                            MonitorView {
                                phase: Phase::Failed(Stopped::FileMoved),
                                cursor: state.cursor,
                            },
                            ActionView::Stop(Stopped::FileMoved),
                        )
                    } else {
                        (state, ActionView::Retry(RETRY_PAUSE))
                    },
                    _ => stay,
                },
                Phase::Measuring => match event {
                    Event::Length(length) => if length < state.cursor {
                        (
                            MonitorView { phase: Phase::Watching, cursor: length as int },
                            ActionView::Wait(Remark::Truncated),
                        )
                    } else if length == state.cursor {
                        (
                            MonitorView { phase: Phase::Watching, cursor: state.cursor },
                            ActionView::Wait(Remark::Nothing),
                        )
                    } else {
                        (
                            MonitorView { phase: Phase::Probing(length), cursor: state.cursor },
                            ActionView::ReadLastByte((length - 1) as u64),
                        )
                    },
                    _ => stay,
                },
                Phase::Probing(length) => match event {
                    Event::LastByte(byte) => if byte == NEWLINE {
                        (
                            MonitorView { phase: Phase::Reading(length), cursor: state.cursor },
                            ActionView::ReadChunk(
                                state.cursor as u64,
                                (length - state.cursor - 1) as u64,
                            ),
                        )
                    } else {
                        (
                            MonitorView { phase: Phase::Watching, cursor: state.cursor },
                            ActionView::Wait(Remark::Incomplete),
                        )
                    },
                    _ => stay,
                },
                Phase::Reading(length) => match event {
                    Event::Chunk(bytes) => (
                        MonitorView { phase: Phase::Watching, cursor: length as int },
                        reaction(pattern, bytes@),
                    ),
                    _ => stay,
                },
                _ => stay,
            },
        },
    }
}

/// What a chunk sets off: one run of the command for each match of the
/// pattern in its text; a chunk that is no text is skipped.
pub open spec fn reaction(pattern: regex::Regex, chunk: Seq<u8>) -> ActionView {
    if valid_utf8(chunk) {
        ActionView::Run(
            invocations_of(group_names(pattern), match_groups(pattern, decode_utf8(chunk))),
        )
    } else {
        ActionView::Wait(Remark::Undecodable)
    }
}

/// A rotation is always answered by an attempt to open the path again.
pub proof fn lemma_rotation_reopens(state: MonitorView, pattern: regex::Regex, kind: EventKind)
    requires
        state.phase == Phase::Watching,
        is_rotation(kind),
    ensures
        next(state, pattern, Event::Changed(kind)).0.phase == Phase::Recovering,
        next(state, pattern, Event::Changed(kind)).1 == ActionView::Reopen,
{
}

/// While the file is away the monitor keeps trying: it gives the file up
/// only when an attempt fails more than a second after the rotation was
/// noticed, and an attempt that succeeds starts the file from its beginning.
pub proof fn lemma_recovery_bounded(state: MonitorView, pattern: regex::Regex, event: Event)
    requires
        state.phase == Phase::Recovering,
    ensures
        next(state, pattern, event).0.phase == Phase::Failed(Stopped::FileMoved) <==> (
        event is ReopenFailed && event->ReopenFailed_0 > RECOVERY_LIMIT),
        event is ReopenFailed && event->ReopenFailed_0 <= RECOVERY_LIMIT ==> next(
            state,
            pattern,
            event,
        ) == (state, ActionView::Retry(RETRY_PAUSE)),
        event is Reopened ==> next(state, pattern, event) == (
            MonitorView { phase: Phase::Measuring, cursor: 0 },
            ActionView::Measure,
        ),
{
}

/// The file is given up in no other way: a monitor that stops because the
/// file moved was recovering, and the attempt that failed came too late.
pub proof fn lemma_gives_up_only_late(state: MonitorView, pattern: regex::Regex, event: Event)
    requires
        state.phase != Phase::Failed(Stopped::FileMoved),
        next(state, pattern, event).0.phase == Phase::Failed(Stopped::FileMoved),
    ensures
        state.phase == Phase::Recovering,
        event is ReopenFailed && event->ReopenFailed_0 > RECOVERY_LIMIT,
{
}

/// The cursor goes back only when the file was truncated or opened again.
pub proof fn lemma_cursor_forward(state: MonitorView, pattern: regex::Regex, event: Event)
    requires
        sound(state),
    ensures
        sound(next(state, pattern, event).0),
        next(state, pattern, event).0.cursor < state.cursor ==> (state.phase == Phase::Measuring
            && event is Length && event->Length_0 < state.cursor) || (state.phase
            == Phase::Recovering && event is Reopened),
{
}

/// Why a monitor cannot be made of a configuration.
#[derive(Clone, Copy, Debug, PartialEq, Eq, Structural)]
pub enum SetupError {
    /// There is no `log` to follow.
    NoLog,
    /// There is no `match_log` to look for.
    NoPattern,
}

/// One monitor: the file it follows, the pattern it looks for, the command
/// it runs, and where it stands.
#[derive(Debug)]
pub struct Monitor {
    name: String,
    log: String,
    pattern: regex::Regex,
    command: Option<Exec>,
    every: Option<Duration>,
    cooldown: Option<Duration>,
    mutates_globals: bool,
    set: Table,
    push: Table,
    phase: Phase,
    tail: TailState,
}

/// What a monitor is given when it is made and keeps as it is.
pub struct Fixed {
    pub name: Seq<char>,
    pub log: Seq<char>,
    pub pattern: regex::Regex,
    pub command: Option<Exec>,
    pub every: Option<Duration>,
    pub cooldown: Option<Duration>,
    pub mutates_globals: bool,
    pub set: Table,
    pub push: Table,
}

impl View for Monitor {
    type V = MonitorView;

    closed spec fn view(&self) -> MonitorView {
        MonitorView { phase: self.phase, cursor: self.tail@ }
    }
}

impl Monitor {
    #[verifier::type_invariant]
    spec fn inv(self) -> bool {
        sound(self@)
    }

    pub closed spec fn fixed(&self) -> Fixed {
        Fixed {
            name: self.name@,
            log: self.log@,
            pattern: self.pattern,
            command: self.command,
            every: self.every,
            cooldown: self.cooldown,
            mutates_globals: self.mutates_globals,
            set: self.set,
            push: self.push,
        }
    }

    /// A monitor for a configuration that names a file and a pattern. It has
    /// not opened the file yet.
    pub fn new(config: MonitorConfig) -> (made: Result<Monitor, SetupError>)
        ensures
            match made {
                Ok(monitor) => config.log matches Some(log) && config.match_log matches Some(
                    pattern,
                ) && monitor.fixed() == (Fixed {
                    name: config.name@,
                    log: log@,
                    pattern,
                    command: config.command,
                    every: config.every,
                    cooldown: config.cooldown,
                    mutates_globals: config.mutates_globals,
                    set: config.set,
                    push: config.push,
                }) && monitor@ == (MonitorView { phase: Phase::Starting, cursor: 0 }),
                Err(error) => error == (if config.log is None {
                    SetupError::NoLog
                } else {
                    SetupError::NoPattern
                }) && (config.log is None || config.match_log is None),
            },
    {
        let log = match config.log {
            Some(log) => log,
            None => {
                return Err(SetupError::NoLog);
            },
        };
        let pattern = match config.match_log {
            Some(pattern) => pattern,
            None => {
                return Err(SetupError::NoPattern);
            },
        };
        Ok(
            Monitor {
                name: config.name,
                log,
                pattern,
                command: config.command,
                every: config.every,
                cooldown: config.cooldown,
                mutates_globals: config.mutates_globals,
                set: config.set,
                push: config.push,
                phase: Phase::Starting,
                tail: TailState::new(0),
            },
        )
    }

    pub fn name(&self) -> (name: &String)
        ensures
            name@ == self.fixed().name,
    {
        &self.name
    }

    /// The path of the file to follow.
    pub fn log(&self) -> (log: &String)
        ensures
            log@ == self.fixed().log,
    {
        &self.log
    }

    /// What to run for each invocation.
    pub fn command(&self) -> (command: &Option<Exec>)
        ensures
            *command == self.fixed().command,
    {
        &self.command
    }

    /// The interval of the polling timer, if the monitor has one.
    pub fn every(&self) -> (every: &Option<Duration>)
        ensures
            *every == self.fixed().every,
    {
        &self.every
    }

    /// The least time between two reactions. Kept, and not acted on.
    pub fn cooldown(&self) -> (cooldown: &Option<Duration>)
        ensures
            *cooldown == self.fixed().cooldown,
    {
        &self.cooldown
    }

    /// Whether the monitor may change the shared variables.
    pub fn mutates_globals(&self) -> (mutates: bool)
        ensures
            mutates == self.fixed().mutates_globals,
    {
        self.mutates_globals
    }

    /// The variables to assign for each match.
    pub fn set(&self) -> (set: &Table)
        ensures
            *set == self.fixed().set,
    {
        &self.set
    }

    /// The variables to append to for each match.
    pub fn push(&self) -> (push: &Table)
        ensures
            *push == self.fixed().push,
    {
        &self.push
    }

    pub fn phase(&self) -> (phase: Phase)
        ensures
            phase == self@.phase,
    {
        self.phase
    }

    pub fn cursor(&self) -> (cursor: u64)
        ensures
            cursor == self@.cursor,
    {
        self.tail.cursor()
    }

    /// The file is open, `length` bytes long, and watched: the monitor
    /// starts at its end and waits. On a monitor that has started already
    /// this changes nothing.
    pub fn start(&mut self, length: u64) -> (action: Action)
        ensures
            final(self).fixed() == old(self).fixed(),
            old(self)@.phase == Phase::Starting ==> final(self)@ == (MonitorView {
                phase: Phase::Watching,
                cursor: length as int,
            }) && action@ == ActionView::Wait(Remark::Nothing),
            old(self)@.phase != Phase::Starting ==> final(self)@ == old(self)@ && action@
                == pending(old(self)@),
    {
        proof {
            use_type_invariant(&*self);
        }
        match self.phase {
            Phase::Starting => {
                self.tail = TailState::new(length);
                self.phase = Phase::Watching;
                Action::Wait(Remark::Nothing)
            },
            _ => self.again(),
        }
    }

    /// What was asked last, asked again.
    fn again(&self) -> (action: Action)
        ensures
            action@ == pending(self@),
    {
        proof {
            use_type_invariant(self);
        }
        match self.phase {
            Phase::Starting => Action::Open,
            Phase::Watching => Action::Wait(Remark::Unexpected),
            Phase::Measuring => Action::Measure,
            Phase::Probing(length) => Action::ReadLastByte(length - 1),
            Phase::Reading(length) => {
                let span = self.tail.pending(length);
                Action::ReadChunk(span.0, span.1)
            },
            Phase::Recovering => Action::Retry(RETRY_PAUSE),
            Phase::Failed(why) => Action::Stop(why),
        }
    }

    /// Takes a report and decides what to do next.
    pub fn step(&mut self, event: Event) -> (action: Action)
        ensures
            final(self).fixed() == old(self).fixed(),
            (final(self)@, action@) == next(old(self)@, old(self).fixed().pattern, event),
    {
        proof {
            use_type_invariant(&*self);
        }
        match self.phase {
            Phase::Failed(_) => {
                return self.again();
            },
            Phase::Starting => {
                return match event {
                    Event::Failure => {
                        self.phase = Phase::Failed(Stopped::Setup);
                        Action::Stop(Stopped::Setup)
                    },
                    _ => self.again(),
                };
            },
            _ => {},
        }
        match event {
            Event::Failure => {
                self.phase = Phase::Failed(Stopped::Io);
                Action::Stop(Stopped::Io)
            },
            Event::Changed(kind) => match self.phase {
                Phase::Watching => {
                    if signals_rotation(kind) {
                        self.phase = Phase::Recovering;
                        Action::Reopen
                    } else {
                        self.phase = Phase::Measuring;
                        Action::Measure
                    }
                },
                _ => self.again(),
            },
            Event::Tick => match self.phase {
                Phase::Watching => {
                    self.phase = Phase::Measuring;
                    Action::Measure
                },
                _ => self.again(),
            },
            Event::WatchError => match self.phase {
                Phase::Watching => Action::Wait(Remark::WatchError),
                _ => self.again(),
            },
            Event::Reopened => match self.phase {
                Phase::Recovering => {
                    let mut tail = self.tail;
                    tail.rewind();
                    self.tail = tail;
                    self.phase = Phase::Measuring;
                    Action::Measure
                },
                _ => self.again(),
            },
            Event::ReopenFailed(elapsed) => match self.phase {
                Phase::Recovering => {
                    if elapsed > RECOVERY_LIMIT {
                        self.phase = Phase::Failed(Stopped::FileMoved);
                        Action::Stop(Stopped::FileMoved)
                    } else {
                        Action::Retry(RETRY_PAUSE)
                    }
                },
                _ => self.again(),
            },
            Event::Length(length) => match self.phase {
                Phase::Measuring => {
                    let mut tail = self.tail;
                    let growth = tail.measure(length);
                    self.tail = tail;
                    match growth {
                        Growth::Truncated => {
                            self.phase = Phase::Watching;
                            Action::Wait(Remark::Truncated)
                        },
                        Growth::Unchanged => {
                            self.phase = Phase::Watching;
                            Action::Wait(Remark::Nothing)
                        },
                        Growth::Grown => {
                            self.phase = Phase::Probing(length);
                            Action::ReadLastByte(length - 1)
                        },
                    }
                },
                _ => self.again(),
            },
            Event::LastByte(byte) => match self.phase {
                Phase::Probing(length) => {
                    if byte == NEWLINE {
                        let span = self.tail.pending(length);
                        self.phase = Phase::Reading(length);
                        Action::ReadChunk(span.0, span.1)
                    } else {
                        self.phase = Phase::Watching;
                        Action::Wait(Remark::Incomplete)
                    }
                },
                _ => self.again(),
            },
            Event::Chunk(bytes) => match self.phase {
                Phase::Reading(length) => {
                    let mut tail = self.tail;
                    let decoded = tail.accept(length, bytes);
                    self.phase = Phase::Watching;
                    self.tail = tail;
                    match decoded {
                        Some(text) => {
                            proof {
                                encode_utf8_decode_utf8(text@);
                            }
                            Action::Run(dispatch(&self.pattern, text.as_str()))
                        },
                        None => Action::Wait(Remark::Undecodable),
                    }
                },
                _ => self.again(),
            },
        }
    }

    /// One look at the whole content of the file, held in memory: takes the
    /// tick of the timer and answers from `file` what the monitor then asks.
    /// A monitor that is not waiting is left as it is.
    pub fn poll_file(&mut self, file: &[u8]) -> (action: Action)
        ensures
            final(self).fixed() == old(self).fixed(),
            old(self)@.phase == Phase::Watching ==> final(self)@ == (MonitorView {
                phase: Phase::Watching,
                cursor: cursor_after(old(self)@.cursor, file@),
            }) && action@ == polled(old(self)@.cursor, old(self).fixed().pattern, file@),
            old(self)@.phase != Phase::Watching ==> final(self)@ == old(self)@ && action@
                == pending(old(self)@),
    {
        proof {
            use_type_invariant(&*self);
        }
        match self.phase {
            Phase::Watching => {},
            _ => {
                return self.again();
            },
        }
        let _ = self.step(Event::Tick);
        let measured = self.step(Event::Length(file.len() as u64));
        match measured {
            Action::ReadLastByte(offset) => {
                let probed = self.step(Event::LastByte(file[offset as usize]));
                match probed {
                    Action::ReadChunk(start, count) => {
                        let chunk = slice_to_vec(
                            slice_subrange(file, start as usize, (start + count) as usize),
                        );
                        self.step(Event::Chunk(chunk))
                    },
                    other => other,
                }
            },
            other => other,
        }
    }
}

/// What one look at the file sets off, for a monitor that waits with its
/// cursor at `cursor`.
pub open spec fn polled(cursor: int, pattern: regex::Regex, file: Seq<u8>) -> ActionView {
    if file.len() < cursor {
        ActionView::Wait(Remark::Truncated)
    } else if file.len() == cursor {
        ActionView::Wait(Remark::Nothing)
    } else {
        match chunk_bytes(cursor, file) {
            Some(chunk) => reaction(pattern, chunk),
            None => ActionView::Wait(Remark::Incomplete),
        }
    }
}

} // verus!
