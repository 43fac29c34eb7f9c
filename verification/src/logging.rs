//! Error, warning and message logs: collecting time-stamped entries, merging
//! them, deciding what the configured level lets through, and laying out the
//! text that goes into a log file.

use vstd::prelude::*;
use crate::clock::{clock_text, date_time_text, local_time_formatted, CLOCK_PATTERN, DATE_TIME_PATTERN};
use crate::text::{lowercase, to_lowercase, push_char, push_str};

verus! {

/// The directory that log files are written to.
pub const LOG_DIRECTORY: &'static str = "enigma_logs";

/// How much is printed: nothing, errors, errors and warnings, or everything.
#[derive(PartialEq, Eq, Structural, Debug, Clone, Copy)]
pub enum LogLevel {
    Off,
    Error,
    Warning,
    Message,
}

/// The kind of a log.
#[derive(PartialEq, Eq, Structural, Debug, Clone, Copy)]
pub enum EnigmaLogType {
    Error,
    Warning,
    Message,
    Unknown,
}

/// Levels are ordered as declared: `Off < Error < Warning < Message`.
pub open spec fn level_rank(level: LogLevel) -> nat {
    match level {
        LogLevel::Off => 0,
        LogLevel::Error => 1,
        LogLevel::Warning => 2,
        LogLevel::Message => 3,
    }
}

/// The levels are strictly ordered as declared, `Off < Error < Warning <
/// Message`: no two levels rank alike, so a log that needs one level is
/// never printed at a lower one.
pub proof fn lemma_levels_strictly_ordered(a: LogLevel, b: LogLevel)
    ensures
        level_rank(LogLevel::Off) < level_rank(LogLevel::Error),
        level_rank(LogLevel::Error) < level_rank(LogLevel::Warning),
        level_rank(LogLevel::Warning) < level_rank(LogLevel::Message),
        level_rank(a) == level_rank(b) ==> a == b,
        level_rank(a) >= level_rank(b) && level_rank(b) >= level_rank(a) ==> a == b,
{
}

/// The level that a lower-cased setting names; anything else means `Message`.
pub open spec fn level_of_setting(setting: Seq<char>) -> LogLevel {
    if setting == "message"@ {
        LogLevel::Message
    } else if setting == "warning"@ {
        LogLevel::Warning
    } else if setting == "error"@ {
        LogLevel::Error
    } else if setting == "none"@ {
        LogLevel::Off
    } else {
        LogLevel::Message
    }
}

/// Whether a lower-cased setting asks for log files: `0` and `false` say no,
/// anything else says yes.
pub open spec fn saving_of_setting(setting: Seq<char>) -> bool {
    if setting == "1"@ || setting == "true"@ {
        true
    } else if setting == "0"@ || setting == "false"@ {
        false
    } else {
        true
    }
}

/// An entry's time stamp and text, as sequences of characters.
pub open spec fn entries_view(v: Seq<(String, String)>) -> Seq<(Seq<char>, Seq<char>)> {
    v.map_values(|p: (String, String)| (p.0@, p.1@))
}

/// The texts of a list of entries, without their time stamps.
pub open spec fn texts(es: Seq<(Seq<char>, Seq<char>)>) -> Seq<Seq<char>> {
    es.map_values(|e: (Seq<char>, Seq<char>)| e.1)
}

/// The words written before each entry's text in a log file.
pub open spec fn prefix_of(log_type: EnigmaLogType) -> Seq<char> {
    match log_type {
        EnigmaLogType::Error => "ERROR >> "@,
        EnigmaLogType::Warning => "WARNING >> "@,
        EnigmaLogType::Message => "MESSAGE >> "@,
        EnigmaLogType::Unknown => ">> "@,
    }
}

/// One line of a log file: the time stamp, a space, the prefix, the text.
pub open spec fn log_line(entry: (Seq<char>, Seq<char>), prefix: Seq<char>) -> Seq<char> {
    entry.0 + seq![' '] + prefix + entry.1
}

/// The lines of all entries, joined by line breaks (none after the last).
pub open spec fn joined_lines(es: Seq<(Seq<char>, Seq<char>)>, prefix: Seq<char>) -> Seq<char>
    decreases es.len(),
{
    if es.len() == 0 {
        seq![]
    } else if es.len() == 1 {
        log_line(es[0], prefix)
    } else {
        joined_lines(es.drop_last(), prefix) + seq!['\n'] + log_line(es.last(), prefix)
    }
}

/// The name of a log file: the program's name, `_`, the date and time, `.log`.
pub open spec fn log_file_name_of(exec_name: Seq<char>, datetime: Seq<char>) -> Seq<char> {
    exec_name + "_"@ + datetime + ".log"@
}

/// A log: a list of time-stamped entries of one kind.
pub trait EnigmaLog {
    /// The entries, as time stamps and texts.
    spec fn log_entries(&self) -> Seq<(Seq<char>, Seq<char>)>;

    /// The kind of the log.
    spec fn kind(&self) -> EnigmaLogType;

    fn get(&self) -> (r: &Vec<(String, String)>)
        ensures
            entries_view(r@) == self.log_entries(),
    ;

    fn log_type(&self) -> (r: EnigmaLogType)
        ensures
            r == self.kind(),
    ;
}

/// Compares two strings by their characters.
fn same_text(a: &String, b: &str) -> (r: bool)
    ensures
        r == (a@ == b@),
{
    let owned: String = b.to_owned();
    *a == owned
}

/// The level that a lower-cased setting names.
pub fn level_from_setting(setting: &str) -> (r: LogLevel)
    ensures
        r == level_of_setting(setting@),
{
    let s: String = setting.to_owned();
    if same_text(&s, "message") {
        LogLevel::Message
    } else if same_text(&s, "warning") {
        LogLevel::Warning
    } else if same_text(&s, "error") {
        LogLevel::Error
    } else if same_text(&s, "none") {
        LogLevel::Off
    } else {
        LogLevel::Message
    }
}

/// The level that the `LOG_LEVEL` setting selects, given its value if it is
/// set: the value is compared without regard to case, and an unset or unknown
/// value means `Message`.
pub fn get_logging_level(setting: Option<&str>) -> (r: LogLevel)
    ensures
        match setting {
            None => r == LogLevel::Message,
            Some(v) => r == level_of_setting(lowercase(v@)),
        },
{
    match setting {
        None => LogLevel::Message,
        Some(v) => {
            let lower = to_lowercase(v);
            level_from_setting(lower.as_str())
        },
    }
}

/// Whether a lower-cased setting asks for log files.
pub fn saving_from_setting(setting: &str) -> (r: bool)
    ensures
        r == saving_of_setting(setting@),
{
    let s: String = setting.to_owned();
    if same_text(&s, "1") || same_text(&s, "true") {
        true
    } else if same_text(&s, "0") || same_text(&s, "false") {
        false
    } else {
        true
    }
}

/// Whether logs are saved to disk, given the value of `SAVE_LOG_FILES` if it
/// is set: compared without regard to case, and unset means yes.
pub fn get_save_log_files(setting: Option<&str>) -> (r: bool)
    ensures
        match setting {
            None => r,
            Some(v) => r == saving_of_setting(lowercase(v@)),
        },
{
    match setting {
        None => true,
        Some(v) => {
            let lower = to_lowercase(v);
            saving_from_setting(lower.as_str())
        },
    }
}

/// Whether a log that needs level `required` is printed when the configured
/// level is `current`: it is, unless `current` comes before `required`.
pub fn log_enabled(current: LogLevel, required: LogLevel) -> (r: bool)
    ensures
        r == (level_rank(current) >= level_rank(required)),
        r == match required {
            LogLevel::Off => true,
            LogLevel::Error => !(current is Off),
            LogLevel::Warning => current is Warning || current is Message,
            LogLevel::Message => current is Message,
        },
{
    let c: u8 = match current {
        LogLevel::Off => 0,
        LogLevel::Error => 1,
        LogLevel::Warning => 2,
        LogLevel::Message => 3,
    };
    let q: u8 = match required {
        LogLevel::Off => 0,
        LogLevel::Error => 1,
        LogLevel::Warning => 2,
        LogLevel::Message => 3,
    };
    c >= q
}

/// The words written before each entry's text in a log file.
pub fn log_prefix(log_type: EnigmaLogType) -> (r: &'static str)
    ensures
        r@ == prefix_of(log_type),
{
    match log_type {
        EnigmaLogType::Error => "ERROR >> ",
        EnigmaLogType::Warning => "WARNING >> ",
        EnigmaLogType::Message => "MESSAGE >> ",
        EnigmaLogType::Unknown => ">> ",
    }
}

/// The text that a log adds to its file: one line per entry, each made of the
/// time stamp, a space, the prefix of the log's kind and the entry's text,
/// joined by line breaks.
pub fn log_file_text<L: EnigmaLog>(log: &L) -> (r: String)
    ensures
        r@ == joined_lines(log.log_entries(), prefix_of(log.kind())),
{
    let entries = log.get();
    let prefix = log_prefix(log.log_type());
    let ghost es = log.log_entries();
    let mut s = String::new();
    let n = entries.len();
    let mut i: usize = 0;
    while i < n
        invariant
            n == entries@.len(),
            es == entries_view(entries@),
            prefix@ == prefix_of(log.kind()),
            0 <= i <= n,
            s@ == joined_lines(es.take(i as int), prefix@),
        decreases n - i,
    {
        if i > 0 {
            push_char(&mut s, '\n');
        }
        push_str(&mut s, entries[i].0.as_str());
        push_char(&mut s, ' ');
        push_str(&mut s, prefix);
        push_str(&mut s, entries[i].1.as_str());
        proof {
            let t = es.take(i + 1);
            assert(t.drop_last() =~= es.take(i as int));
            assert(t.last() == es[i as int]);
            assert(es[i as int] == (entries@[i as int].0@, entries@[i as int].1@));
            if i == 0 {
                assert(t.len() == 1);
                assert(s@ =~= log_line(t[0], prefix@));
            } else {
                assert(s@ =~= joined_lines(t.drop_last(), prefix@) + seq!['\n'] + log_line(t.last(), prefix@));
            }
        }
        i = i + 1;
    }
    assert(es.take(n as int) =~= es);
    s
}

/// The name of a log file, from the program's name and a date and time.
pub fn log_file_name(exec_name: &str, datetime: &str) -> (r: String)
    ensures
        r@ == log_file_name_of(exec_name@, datetime@),
{
    let mut s: String = exec_name.to_owned();
    push_str(&mut s, "_");
    push_str(&mut s, datetime);
    push_str(&mut s, ".log");
    assert(s@ =~= log_file_name_of(exec_name@, datetime@));
    s
}

/// The name of a new log file for the program `exec_name`, stamped with the
/// current local date and time.
pub fn initialize_log_file(exec_name: &str) -> (r: String)
    ensures
        exists|datetime: Seq<char>| date_time_text(datetime) && r@ == log_file_name_of(exec_name@, datetime),
{
    let datetime = local_time_formatted(DATE_TIME_PATTERN);
    let r = log_file_name(exec_name, datetime.as_str());
    assert(r@ == log_file_name_of(exec_name@, datetime@));
    r
}

/// A log of errors.
pub struct EnigmaError {
    errors: Vec<(String, String)>,
    disk: bool,
}

impl View for EnigmaError {
    type V = Seq<(Seq<char>, Seq<char>)>;

    closed spec fn view(&self) -> Seq<(Seq<char>, Seq<char>)> {
        entries_view(self.errors@)
    }
}

impl EnigmaError {
    /// Whether the log is also written to a file when it is logged.
    pub closed spec fn to_disk(&self) -> bool {
        self.disk
    }

    /// A log with one entry holding `error`, stamped with the current time, or
    /// an empty log if there is none.
    pub fn new(error: Option<&str>, disk: bool) -> (r: Self)
        ensures
            r.to_disk() == disk,
            forall|k: int| 0 <= k < r@.len() ==> clock_text(#[trigger] r@[k].0),
            match error {
                None => r@.len() == 0,
                Some(e) => texts(r@) == seq![e@],
            },
    {
        let time = local_time_formatted(CLOCK_PATTERN);
        let errors = match error {
            Some(e) => {
                let mut v: Vec<(String, String)> = Vec::new();
                v.push((time, e.to_owned()));
                v
            },
            None => Vec::new(),
        };
        let r = EnigmaError { errors, disk };
        proof {
            if let Some(e) = error {
                assert(texts(r@) =~= seq![e@]);
            }
        }
        r
    }

    /// Appends an entry holding `error`, stamped with the current time.
    pub fn extent(&mut self, error: &str)
        ensures
            final(self).to_disk() == old(self).to_disk(),
            final(self)@.len() == old(self)@.len() + 1,
            final(self)@.take(old(self)@.len() as int) == old(self)@,
            texts(final(self)@) == texts(old(self)@).push(error@),
            clock_text(final(self)@.last().0),
    {
        let time = local_time_formatted(CLOCK_PATTERN);
        self.errors.push((time, error.to_owned()));
        assert(final(self)@.take(old(self)@.len() as int) =~= old(self)@);
        assert(texts(final(self)@) =~= texts(old(self)@).push(error@));
    }

    /// Appends the texts of `error`'s entries, in order, each stamped anew
    /// with the current time.
    pub fn merge(&mut self, error: EnigmaError)
        ensures
            final(self).to_disk() == old(self).to_disk(),
            final(self)@.len() == old(self)@.len() + error@.len(),
            final(self)@.take(old(self)@.len() as int) == old(self)@,
            texts(final(self)@) == texts(old(self)@) + texts(error@),
            forall|k: int| old(self)@.len() <= k < final(self)@.len() ==> clock_text(#[trigger] final(self)@[k].0),
    {
        let n = error.errors.len();
        let mut i: usize = 0;
        while i < n
            invariant
                n == error@.len(),
                0 <= i <= n,
                self.to_disk() == old(self).to_disk(),
                self@.len() == old(self)@.len() + i,
                self@.take(old(self)@.len() as int) == old(self)@,
                texts(self@) == texts(old(self)@) + texts(error@.take(i as int)),
                forall|k: int| old(self)@.len() <= k < self@.len() ==> clock_text(#[trigger] self@[k].0),
            decreases n - i,
        {
            let ghost before = self@;
            self.extent(error.errors[i].1.as_str());
            proof {
                assert forall|k: int| old(self)@.len() <= k < self@.len() implies clock_text(#[trigger] self@[k].0) by {
                    if k < before.len() {
                        assert(self@.take(before.len() as int)[k] == before[k]);
                    }
                }
                assert(self@.take(old(self)@.len() as int) =~= before.take(old(self)@.len() as int));
                assert(error@[i as int].1 == error.errors@[i as int].1@);
                assert(texts(error@.take(i + 1)) =~= texts(error@.take(i as int)).push(error@[i as int].1));
                assert(texts(self@) =~= texts(old(self)@) + texts(error@.take(i + 1)));
            }
            i = i + 1;
        }
        assert(error@.take(n as int) =~= error@);
    }

    /// Whether the log holds no entry.
    pub fn is_empty(&self) -> (r: bool)
        ensures
            r == (self@.len() == 0),
    {
        self.errors.len() == 0
    }

    /// Whether the log is also written to a file when it is logged.
    pub fn saves_to_disk(&self) -> (r: bool)
        ensures
            r == self.to_disk(),
    {
        self.disk
    }
}

impl EnigmaLog for EnigmaError {
    open spec fn log_entries(&self) -> Seq<(Seq<char>, Seq<char>)> {
        self@
    }

    open spec fn kind(&self) -> EnigmaLogType {
        EnigmaLogType::Error
    }

    fn get(&self) -> (r: &Vec<(String, String)>) {
        &self.errors
    }

    fn log_type(&self) -> (r: EnigmaLogType) {
        EnigmaLogType::Error
    }
}

/// A log of warnings.
pub struct EnigmaWarning {
    warnings: Vec<(String, String)>,
    disk: bool,
}

impl View for EnigmaWarning {
    type V = Seq<(Seq<char>, Seq<char>)>;

    closed spec fn view(&self) -> Seq<(Seq<char>, Seq<char>)> {
        entries_view(self.warnings@)
    }
}

impl EnigmaWarning {
    /// Whether the log is also written to a file when it is logged.
    pub closed spec fn to_disk(&self) -> bool {
        self.disk
    }

    /// A log with one entry holding `warning`, stamped with the current time, or
    /// an empty log if there is none.
    pub fn new(warning: Option<&str>, disk: bool) -> (r: Self)
        ensures
            r.to_disk() == disk,
            forall|k: int| 0 <= k < r@.len() ==> clock_text(#[trigger] r@[k].0),
            match warning {
                None => r@.len() == 0,
                Some(e) => texts(r@) == seq![e@],
            },
    {
        let time = local_time_formatted(CLOCK_PATTERN);
        let warnings = match warning {
            Some(e) => {
                let mut v: Vec<(String, String)> = Vec::new();
                v.push((time, e.to_owned()));
                v
            },
            None => Vec::new(),
        };
        let r = EnigmaWarning { warnings, disk };
        proof {
            if let Some(e) = warning {
                assert(texts(r@) =~= seq![e@]);
            }
        }
        r
    }

    /// Appends an entry holding `warning`, stamped with the current time.
    pub fn extent(&mut self, warning: &str)
        ensures
            final(self).to_disk() == old(self).to_disk(),
            final(self)@.len() == old(self)@.len() + 1,
            final(self)@.take(old(self)@.len() as int) == old(self)@,
            texts(final(self)@) == texts(old(self)@).push(warning@),
            clock_text(final(self)@.last().0),
    {
        let time = local_time_formatted(CLOCK_PATTERN);
        self.warnings.push((time, warning.to_owned()));
        assert(final(self)@.take(old(self)@.len() as int) =~= old(self)@);
        assert(texts(final(self)@) =~= texts(old(self)@).push(warning@));
    }

    /// Appends the texts of `warning`'s entries, in order, each stamped anew
    /// with the current time.
    pub fn merge(&mut self, error: EnigmaWarning)
        ensures
            final(self).to_disk() == old(self).to_disk(),
            final(self)@.len() == old(self)@.len() + error@.len(),
            final(self)@.take(old(self)@.len() as int) == old(self)@,
            texts(final(self)@) == texts(old(self)@) + texts(error@),
            forall|k: int| old(self)@.len() <= k < final(self)@.len() ==> clock_text(#[trigger] final(self)@[k].0),
    {
        let n = error.warnings.len();
        let mut i: usize = 0;
        while i < n
            invariant
                n == error@.len(),
                0 <= i <= n,
                self.to_disk() == old(self).to_disk(),
                self@.len() == old(self)@.len() + i,
                self@.take(old(self)@.len() as int) == old(self)@,
                texts(self@) == texts(old(self)@) + texts(error@.take(i as int)),
                forall|k: int| old(self)@.len() <= k < self@.len() ==> clock_text(#[trigger] self@[k].0),
            decreases n - i,
        {
            let ghost before = self@;
            self.extent(error.warnings[i].1.as_str());
            proof {
                assert forall|k: int| old(self)@.len() <= k < self@.len() implies clock_text(#[trigger] self@[k].0) by {
                    if k < before.len() {
                        assert(self@.take(before.len() as int)[k] == before[k]);
                    }
                }
                assert(self@.take(old(self)@.len() as int) =~= before.take(old(self)@.len() as int));
                assert(error@[i as int].1 == error.warnings@[i as int].1@);
                assert(texts(error@.take(i + 1)) =~= texts(error@.take(i as int)).push(error@[i as int].1));
                assert(texts(self@) =~= texts(old(self)@) + texts(error@.take(i + 1)));
            }
            i = i + 1;
        }
        assert(error@.take(n as int) =~= error@);
    }

    /// Whether the log holds no entry.
    pub fn is_empty(&self) -> (r: bool)
        ensures
            r == (self@.len() == 0),
    {
        self.warnings.len() == 0
    }

    /// Whether the log is also written to a file when it is logged.
    pub fn saves_to_disk(&self) -> (r: bool)
        ensures
            r == self.to_disk(),
    {
        self.disk
    }
}

impl EnigmaLog for EnigmaWarning {
    open spec fn log_entries(&self) -> Seq<(Seq<char>, Seq<char>)> {
        self@
    }

    open spec fn kind(&self) -> EnigmaLogType {
        EnigmaLogType::Warning
    }

    fn get(&self) -> (r: &Vec<(String, String)>) {
        &self.warnings
    }

    fn log_type(&self) -> (r: EnigmaLogType) {
        EnigmaLogType::Warning
    }
}

/// A log of messages.
pub struct EnigmaMessage {
    messages: Vec<(String, String)>,
    disk: bool,
}

impl View for EnigmaMessage {
    type V = Seq<(Seq<char>, Seq<char>)>;

    closed spec fn view(&self) -> Seq<(Seq<char>, Seq<char>)> {
        entries_view(self.messages@)
    }
}

impl EnigmaMessage {
    /// Whether the log is also written to a file when it is logged.
    pub closed spec fn to_disk(&self) -> bool {
        self.disk
    }

    /// A log with one entry holding `message`, stamped with the current time, or
    /// an empty log if there is none.
    pub fn new(message: Option<&str>, disk: bool) -> (r: Self)
        ensures
            r.to_disk() == disk,
            forall|k: int| 0 <= k < r@.len() ==> clock_text(#[trigger] r@[k].0),
            match message {
                None => r@.len() == 0,
                Some(e) => texts(r@) == seq![e@],
            },
    {
        let time = local_time_formatted(CLOCK_PATTERN);
        let messages = match message {
            Some(e) => {
                let mut v: Vec<(String, String)> = Vec::new();
                v.push((time, e.to_owned()));
                v
            },
            None => Vec::new(),
        };
        let r = EnigmaMessage { messages, disk };
        proof {
            if let Some(e) = message {
                assert(texts(r@) =~= seq![e@]);
            }
        }
        r
    }

    /// Appends an entry holding `message`, stamped with the current time.
    pub fn extent(&mut self, message: &str)
        ensures
            final(self).to_disk() == old(self).to_disk(),
            final(self)@.len() == old(self)@.len() + 1,
            final(self)@.take(old(self)@.len() as int) == old(self)@,
            texts(final(self)@) == texts(old(self)@).push(message@),
            clock_text(final(self)@.last().0),
    {
        let time = local_time_formatted(CLOCK_PATTERN);
        self.messages.push((time, message.to_owned()));
        assert(final(self)@.take(old(self)@.len() as int) =~= old(self)@);
        assert(texts(final(self)@) =~= texts(old(self)@).push(message@));
    }

    /// Appends the texts of `message`'s entries, in order, each stamped anew
    /// with the current time.
    pub fn merge(&mut self, error: EnigmaMessage)
        ensures
            final(self).to_disk() == old(self).to_disk(),
            final(self)@.len() == old(self)@.len() + error@.len(),
            final(self)@.take(old(self)@.len() as int) == old(self)@,
            texts(final(self)@) == texts(old(self)@) + texts(error@),
            forall|k: int| old(self)@.len() <= k < final(self)@.len() ==> clock_text(#[trigger] final(self)@[k].0),
    {
        let n = error.messages.len();
        let mut i: usize = 0;
        while i < n
            invariant
                n == error@.len(),
                0 <= i <= n,
                self.to_disk() == old(self).to_disk(),
                self@.len() == old(self)@.len() + i,
                self@.take(old(self)@.len() as int) == old(self)@,
                texts(self@) == texts(old(self)@) + texts(error@.take(i as int)),
                forall|k: int| old(self)@.len() <= k < self@.len() ==> clock_text(#[trigger] self@[k].0),
            decreases n - i,
        {
            let ghost before = self@;
            self.extent(error.messages[i].1.as_str());
            proof {
                assert forall|k: int| old(self)@.len() <= k < self@.len() implies clock_text(#[trigger] self@[k].0) by {
                    if k < before.len() {
                        assert(self@.take(before.len() as int)[k] == before[k]);
                    }
                }
                assert(self@.take(old(self)@.len() as int) =~= before.take(old(self)@.len() as int));
                assert(error@[i as int].1 == error.messages@[i as int].1@);
                assert(texts(error@.take(i + 1)) =~= texts(error@.take(i as int)).push(error@[i as int].1));
                assert(texts(self@) =~= texts(old(self)@) + texts(error@.take(i + 1)));
            }
            i = i + 1;
        }
        assert(error@.take(n as int) =~= error@);
    }

    /// Whether the log holds no entry.
    pub fn is_empty(&self) -> (r: bool)
        ensures
            r == (self@.len() == 0),
    {
        self.messages.len() == 0
    }

    /// Whether the log is also written to a file when it is logged.
    pub fn saves_to_disk(&self) -> (r: bool)
        ensures
            r == self.to_disk(),
    {
        self.disk
    }
}

impl EnigmaLog for EnigmaMessage {
    open spec fn log_entries(&self) -> Seq<(Seq<char>, Seq<char>)> {
        self@
    }

    open spec fn kind(&self) -> EnigmaLogType {
        EnigmaLogType::Message
    }

    fn get(&self) -> (r: &Vec<(String, String)>) {
        &self.messages
    }

    fn log_type(&self) -> (r: EnigmaLogType) {
        EnigmaLogType::Message
    }
}

} // verus!
