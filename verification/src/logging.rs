//! The newest log messages, kept for display.

use std::collections::VecDeque;

use vstd::prelude::*;

verus! {

/// How many messages are kept.
pub const MAX_LOG_MESSAGES: usize = 100;

/// How serious a message is.
#[derive(Clone, Copy, Debug, PartialEq, Eq, Structural)]
pub enum Level {
    Error,
    Warn,
    Info,
    Debug,
    Trace,
}

/// Which messages are let through.
#[derive(Clone, Copy, Debug, PartialEq, Eq, Structural)]
pub enum LevelFilter {
    Off,
    Error,
    Warn,
    Info,
    Debug,
    Trace,
}

/// A log message.
#[derive(Debug)]
pub struct LogMessage {
    pub level: Level,
    pub message: String,
    /// When it was logged, as it is shown.
    pub timestamp: String,
}

/// The rank of a level: 1 is the most serious.
pub open spec fn level_rank(level: Level) -> nat {
    match level {
        Level::Error => 1,
        Level::Warn => 2,
        Level::Info => 3,
        Level::Debug => 4,
        Level::Trace => 5,
    }
}

/// The least serious rank that a filter lets through.
pub open spec fn filter_rank(filter: LevelFilter) -> nat {
    match filter {
        LevelFilter::Off => 0,
        LevelFilter::Error => 1,
        LevelFilter::Warn => 2,
        LevelFilter::Info => 3,
        LevelFilter::Debug => 4,
        LevelFilter::Trace => 5,
    }
}

/// The name of a level.
pub open spec fn level_text(level: Level) -> Seq<char> {
    match level {
        Level::Error => "ERROR"@,
        Level::Warn => "WARN"@,
        Level::Info => "INFO"@,
        Level::Debug => "DEBUG"@,
        Level::Trace => "TRACE"@,
    }
}

impl Level {
    /// The name of the level.
    pub fn name(&self) -> (s: &'static str)
        ensures
            s@ == level_text(*self),
    {
        match self {
            Level::Error => "ERROR",
            Level::Warn => "WARN",
            Level::Info => "INFO",
            Level::Debug => "DEBUG",
            Level::Trace => "TRACE",
        }
    }
}

impl LogMessage {
    /// A copy.
    pub fn dup(&self) -> (r: Self)
        ensures
            r == *self,
    {
        LogMessage {
            level: self.level,
            message: self.message.clone(),
            timestamp: self.timestamp.clone(),
        }
    }
}

/// The logger: a filter, the newest messages, and whether they also go to the
/// error stream.
#[derive(Debug)]
pub struct BufferedLogger {
    pub buffer: VecDeque<LogMessage>,
    pub level: LevelFilter,
    pub stderr_disabled: bool,
}

/// The newest messages of a sequence, as many as are kept.
pub open spec fn newest(messages: Seq<LogMessage>, count: nat) -> Seq<LogMessage> {
    if messages.len() > count { messages.skip(messages.len() - count) } else { messages }
}

impl BufferedLogger {
    /// Whether no more messages are held than are kept.
    pub open spec fn wf(&self) -> bool {
        self.buffer@.len() <= MAX_LOG_MESSAGES
    }

    /// Whether messages of a level are let through.
    pub fn enabled(&self, level: Level) -> (r: bool)
        ensures
            r == (level_rank(level) <= filter_rank(self.level)),
    {
        let a: u8 = match level {
            Level::Error => 1,
            Level::Warn => 2,
            Level::Info => 3,
            Level::Debug => 4,
            Level::Trace => 5,
        };
        let b: u8 = match self.level {
            LevelFilter::Off => 0,
            LevelFilter::Error => 1,
            LevelFilter::Warn => 2,
            LevelFilter::Info => 3,
            LevelFilter::Debug => 4,
            LevelFilter::Trace => 5,
        };
        a <= b
    }

    /// Takes a message. One that is let through is kept, and comes back as the
    /// line for the error stream unless that is disabled; the oldest message
    /// makes room where there are too many.
    pub fn log(&mut self, level: Level, message: String, timestamp: String) -> (line: Option<String>)
        requires
            old(self).wf(),
        ensures
            final(self).wf(),
            final(self).level == old(self).level,
            final(self).stderr_disabled == old(self).stderr_disabled,
            ({
                let through = level_rank(level) <= filter_rank(old(self).level);
                &&& final(self).buffer@ == if through {
                    newest(
                        old(self).buffer@.push(LogMessage { level, message, timestamp }),
                        MAX_LOG_MESSAGES as nat,
                    )
                } else {
                    old(self).buffer@
                }
                &&& crate::text::opt_text(line) == if through && !old(self).stderr_disabled {
                    Some(
                        "["@ + timestamp@ + "] "@ + level_text(level) + " - "@ + message@,
                    )
                } else {
                    None
                }
            }),
    {
        if !self.enabled(level) {
            return None;
        }
        let line: Option<String> = if self.stderr_disabled {
            None
        } else {
            let mut s = "[".to_owned();
            s.append(timestamp.as_str());
            s.append("] ");
            s.append(level.name());
            s.append(" - ");
            s.append(message.as_str());
            Some(s)
        };
        let ghost before = self.buffer@;
        self.buffer.push_back(LogMessage { level, message, timestamp });
        if self.buffer.len() > MAX_LOG_MESSAGES {
            self.buffer.pop_front();
        }
        assert(self.buffer@ =~= newest(
            before.push(LogMessage { level, message, timestamp }),
            MAX_LOG_MESSAGES as nat,
        ));
        line
    }
}

/// A logger that lets messages of a level through.
pub fn init_logging_with_buffer(level: LevelFilter) -> (logger: BufferedLogger)
    ensures
        logger.wf(),
        logger.buffer@.len() == 0,
        logger.level == level,
        !logger.stderr_disabled,
{
    BufferedLogger { buffer: VecDeque::new(), level, stderr_disabled: false }
}

/// The messages that are held, from the oldest to the newest.
pub fn get_log_messages(logger: &BufferedLogger) -> (messages: Vec<LogMessage>)
    ensures
        messages@ == logger.buffer@,
{
    get_recent_log_messages(logger, logger.buffer.len())
}

/// The newest messages, from the oldest to the newest.
pub fn get_recent_log_messages(logger: &BufferedLogger, count: usize) -> (messages: Vec<
    LogMessage,
>)
    ensures
        messages@ == newest(logger.buffer@, count as nat),
{
    let n: usize = logger.buffer.len();
    let start: usize = if n > count { n - count } else { 0 };
    let mut out: Vec<LogMessage> = Vec::new();
    for i in start..n
        invariant
            start <= i <= n,
            n == logger.buffer@.len(),
            out@ =~= logger.buffer@.subrange(start as int, i as int),
    {
        out.push(logger.buffer[i].dup());
    }
    assert(out@ =~= newest(logger.buffer@, count as nat));
    out
}

/// Drops all messages.
pub fn clear_log_messages(logger: &mut BufferedLogger)
    ensures
        final(logger).buffer@.len() == 0,
        final(logger).level == old(logger).level,
        final(logger).stderr_disabled == old(logger).stderr_disabled,
{
    logger.buffer = VecDeque::new();
}

/// The number of messages that are held.
pub fn get_log_message_count(logger: &BufferedLogger) -> (n: usize)
    ensures
        n == logger.buffer@.len(),
{
    logger.buffer.len()
}

/// Keeps messages off the error stream, as while the terminal is drawn on.
pub fn disable_stderr(logger: &mut BufferedLogger)
    ensures
        final(logger).stderr_disabled,
        final(logger).buffer == old(logger).buffer,
        final(logger).level == old(logger).level,
{
    logger.stderr_disabled = true;
}

/// Lets messages go to the error stream again.
pub fn enable_stderr(logger: &mut BufferedLogger)
    ensures
        !final(logger).stderr_disabled,
        final(logger).buffer == old(logger).buffer,
        final(logger).level == old(logger).level,
{
    logger.stderr_disabled = false;
}

/// What is let through at a filter is let through at every wider one, and with
/// the logger off nothing is.
pub proof fn law_wider_filters_keep_messages(level: Level, narrow: LevelFilter, wide: LevelFilter)
    requires
        filter_rank(narrow) <= filter_rank(wide),
    ensures
        level_rank(level) <= filter_rank(narrow) ==> level_rank(level) <= filter_rank(wide),
        level_rank(level) > filter_rank(LevelFilter::Off),
{
}

/// The newest message is always held, and the order of the messages stays.
pub proof fn law_newest_message_is_kept(messages: Seq<LogMessage>, m: LogMessage)
    ensures
        newest(messages.push(m), MAX_LOG_MESSAGES as nat).last() == m,
        newest(messages.push(m), MAX_LOG_MESSAGES as nat).len() <= MAX_LOG_MESSAGES,
        newest(messages.push(m), MAX_LOG_MESSAGES as nat).is_suffix_of(messages.push(m)),
{
    let all = messages.push(m);
    let kept = newest(all, MAX_LOG_MESSAGES as nat);
    assert(kept =~= all.subrange(all.len() - kept.len(), all.len() as int));
}

/// A filter lets through what is at least as serious as its name says.
pub proof fn law_filters_let_through_what_they_name(level: Level)
    ensures
        !(level_rank(level) <= filter_rank(LevelFilter::Off)),
        level_rank(level) <= filter_rank(LevelFilter::Error) <==> level == Level::Error,
        level_rank(level) <= filter_rank(LevelFilter::Warn) <==> level == Level::Error || level
            == Level::Warn,
        level_rank(level) <= filter_rank(LevelFilter::Info) <==> level != Level::Debug && level
            != Level::Trace,
        level_rank(level) <= filter_rank(LevelFilter::Debug) <==> level != Level::Trace,
        level_rank(level) <= filter_rank(LevelFilter::Trace),
        level == Level::Error ==> level_text(level) == "ERROR"@,
        level == Level::Warn ==> level_text(level) == "WARN"@,
        level == Level::Info ==> level_text(level) == "INFO"@,
        level == Level::Debug ==> level_text(level) == "DEBUG"@,
        level == Level::Trace ==> level_text(level) == "TRACE"@,
{
}

/// The newest messages are the last of them, as many as are wanted or all, in their
/// order; a hundred are kept.
pub proof fn law_newest_messages_are_the_last(messages: Seq<LogMessage>, count: nat, back: int)
    ensures
        newest(messages, count).len() == if count < messages.len() { count } else { messages.len() },
        0 < back <= newest(messages, count).len() ==> newest(messages, count)[newest(
            messages,
            count,
        ).len() - back] == messages[messages.len() - back],
        MAX_LOG_MESSAGES == 100,
{
}

} // verus!
