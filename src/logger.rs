use crate::level::LogLevel;
use crate::msg::{
    lemma_count_breaks_bound, lemma_split_lines, line_text, split_lines, split_message, LogMessage,
    MessageModel,
};
use crate::time::{always_renders, is_date, today, Time};
use crate::naming::{first_free_index, log_path, log_path_of, recover_index, views_of};
use crate::setting::{default_setting, ConfigError, Setting, SettingModel};
use vstd::prelude::*;

verus! {

/// One thing the embedding program must do, in the order given, to carry out
/// what the logger decided.
#[derive(Debug)]
pub enum Action {
    /// Create the file at this path, failing if it already exists, and make it
    /// the current output file.
    Open(String),
    /// Close the current output file.
    Close,
    /// Print this line on the console.
    Print(String),
    /// Append this line and a line break to the current output file.
    Append(String),
    /// Remove this directory with all it holds and create it again, empty.
    ResetDir(String),
}

/// What an action is, with its texts as character sequences.
pub enum Effect {
    Open(Seq<char>),
    Close,
    Print(Seq<char>),
    Append(Seq<char>),
    ResetDir(Seq<char>),
}

impl View for Action {
    type V = Effect;

    open spec fn view(&self) -> Effect {
        match self {
            Action::Open(p) => Effect::Open(p@),
            Action::Close => Effect::Close,
            Action::Print(l) => Effect::Print(l@),
            Action::Append(l) => Effect::Append(l@),
            Action::ResetDir(d) => Effect::ResetDir(d@),
        }
    }
}

/// The effects of a list of actions.
pub open spec fn effects_of(v: Seq<Action>) -> Seq<Effect> {
    v.map_values(|a: Action| a@)
}

/// The models of a list of messages.
pub open spec fn messages_of(v: Seq<LogMessage>) -> Seq<MessageModel> {
    v.map_values(|m: LogMessage| m@)
}

/// The views of a list of optional texts.
pub open spec fn days_of(v: Seq<Option<String>>) -> Seq<Option<Seq<char>>> {
    v.map_values(|d: Option<String>| match d {
        Some(t) => Some(t@),
        None => None,
    })
}

/// What a logger is: whether an output file is open, the index of the current
/// file within its date group, the lines written to it, the date the group was
/// opened under, whether the logger was initialized, and its configuration.
pub struct LoggerModel {
    pub file_open: bool,
    pub index: nat,
    pub used: nat,
    pub prefix: Seq<char>,
    pub init: bool,
    pub setting: SettingModel,
}

/// `Close` if a file is open, else nothing.
pub open spec fn close_if(open: bool) -> Seq<Effect> {
    if open {
        seq![Effect::Close]
    } else {
        seq![]
    }
}

/// The path of the file the logger writes to next.
pub open spec fn current_path(s: LoggerModel) -> Seq<char> {
    log_path(s.setting.dir_path, s.prefix, s.index)
}

/// Before a line: where the date `today` is known and differs from the
/// group's, a new group begins at index 0 and the open file is closed.
pub open spec fn roll_day(s: LoggerModel, today: Option<Seq<char>>) -> (LoggerModel, Seq<Effect>) {
    match today {
        Some(t) => if t != s.prefix {
            (LoggerModel { file_open: false, index: 0, used: 0, prefix: t, ..s }, close_if(s.file_open))
        } else {
            (s, seq![])
        },
        None => (s, seq![]),
    }
}

/// Whether a line of level `level` is printed on the console.
pub open spec fn shown(setting: SettingModel, level: LogLevel) -> bool {
    setting.print_out && setting.terminal_print_level.admits(level)
}

/// Whether a line of level `level` is written to file.
pub open spec fn kept(setting: SettingModel, level: LogLevel) -> bool {
    setting.file_record_level.admits(level)
}

/// One line sent where its level admits it: to the console, and to the current
/// file, which is opened first where none is open.
pub open spec fn route_line(s: LoggerModel, line: MessageModel) -> (LoggerModel, Seq<Effect>) {
    let text = line_text(line);
    let printed = if shown(s.setting, line.level) {
        seq![Effect::Print(text)]
    } else {
        seq![]
    };
    if kept(s.setting, line.level) {
        let opened = if s.file_open {
            seq![]
        } else {
            seq![Effect::Open(current_path(s))]
        };
        (
            LoggerModel { file_open: true, used: s.used + 1, ..s },
            printed + opened + seq![Effect::Append(text)],
        )
    } else {
        (s, printed)
    }
}

/// One line, with the date read just before it.
pub open spec fn step_line(s: LoggerModel, line: MessageModel, today: Option<Seq<char>>) -> (
    LoggerModel,
    Seq<Effect>,
) {
    let (s1, e1) = roll_day(s, today);
    let (s2, e2) = route_line(s1, line);
    (s2, e1 + e2)
}

/// The lines of a message, in order, each with its date.
pub open spec fn run_lines(
    s: LoggerModel,
    lines: Seq<MessageModel>,
    days: Seq<Option<Seq<char>>>,
) -> (LoggerModel, Seq<Effect>)
    decreases lines.len(),
{
    if lines.len() == 0 {
        (s, seq![])
    } else {
        let (s1, e1) = run_lines(s, lines.drop_last(), days.drop_last());
        let (s2, e2) = step_line(s1, lines.last(), days.last());
        (s2, e1 + e2)
    }
}

/// After a message: where a size limit is set and the current file has reached
/// it, the file is closed and the next index begun.
pub open spec fn rotate(s: LoggerModel) -> (LoggerModel, Seq<Effect>) {
    if s.setting.single_length != 0 && s.used >= s.setting.single_length {
        (LoggerModel { file_open: false, index: s.index + 1, used: 0, ..s }, close_if(s.file_open))
    } else {
        (s, seq![])
    }
}

/// A whole message, split into `lines`: nothing while the logger is disabled;
/// else each line, then the size check.
pub open spec fn write_spec(
    s: LoggerModel,
    lines: Seq<MessageModel>,
    days: Seq<Option<Seq<char>>>,
) -> (LoggerModel, Seq<Effect>) {
    if s.setting.disabled {
        (s, seq![])
    } else {
        let (s1, e1) = run_lines(s, lines, days);
        let (s2, e2) = rotate(s1);
        (s2, e1 + e2)
    }
}

/// Whether `n` more lines can be counted without the counters overflowing.
pub open spec fn room(s: LoggerModel, n: nat) -> bool {
    s.index + s.used + n < usize::MAX
}

/// Whether `(s2, effects)` is what recording a message of level `level`, body
/// `body` and origin `origin` does to `s`, where the message was stamped `t`
/// and `days` were the dates read before its lines.
pub open spec fn recorded(
    s: LoggerModel,
    level: LogLevel,
    body: Seq<char>,
    origin: Seq<char>,
    t: Time,
    days: Seq<Option<Seq<char>>>,
    s2: LoggerModel,
    effects: Seq<Effect>,
) -> bool {
    let m = MessageModel { level, body, time: t, origin };
    &&& t.wf()
    &&& t.time_zone == s.setting.time_zone
    &&& t.detailed_display == s.setting.time_detailed_display
    &&& days.len() == split_lines(body).len()
    &&& !s.setting.disabled ==> forall|k: int|
        0 <= k < days.len() ==> day_read(#[trigger] days[k], s.setting)
    &&& (s2, effects) == write_spec(LoggerModel { init: true, ..s }, split_message(m), days)
}

/// The warning that a second initialization records.
pub const REPEATED_INIT: &'static str = "Log writer had been initialized!";

/// The origin that the warning of a second initialization carries.
pub const INIT_ORIGIN: &'static str = "Logger::init";

/// Whether `t` is the date of some instant in the zone and pattern of `setting`.
pub open spec fn is_date_for(t: Seq<char>, setting: SettingModel) -> bool {
    is_date(t, setting.time_zone, setting.file_time_format)
}

/// Whether `d` can be the date read before a line under `setting`: a date in
/// its zone and pattern, and absent only where the pattern may fail to render.
pub open spec fn day_read(d: Option<Seq<char>>, setting: SettingModel) -> bool {
    &&& d matches Some(t) ==> is_date_for(t, setting)
    &&& always_renders(setting.file_time_format) ==> d is Some
}

/// Whether `s2` and `effects` are what replacing the configuration of `s` with
/// `setting` gives, where `names` are the files already in the directory:
/// the open file is closed, the date group is read anew, its index resumes
/// after the files that exist, and the line count starts again.
pub open spec fn reconfigured(
    s: LoggerModel,
    setting: SettingModel,
    names: Seq<Seq<char>>,
    s2: LoggerModel,
    effects: Seq<Effect>,
) -> bool {
    &&& s2 == LoggerModel {
        file_open: false,
        index: first_free_index(s2.prefix, names),
        used: 0,
        prefix: s2.prefix,
        init: true,
        setting,
    }
    &&& is_date_for(s2.prefix, setting)
    &&& effects == close_if(s.file_open)
}

/// The effects of a configuration call's result.
pub open spec fn outcome(r: Result<Vec<Action>, ConfigError>) -> Result<Seq<Effect>, ConfigError> {
    match r {
        Ok(a) => Ok(effects_of(a@)),
        Err(e) => Err(e),
    }
}

/// Whether `s2` and `r` are what `set` with `setting` gives on `s`, where
/// `names` are the files already in the directory: a zone outside (-24, 24)
/// hours is refused, as is a date pattern that cannot be rendered, and a
/// refusal changes nothing.
pub open spec fn set_result(
    s: LoggerModel,
    setting: SettingModel,
    names: Seq<Seq<char>>,
    s2: LoggerModel,
    r: Result<Seq<Effect>, ConfigError>,
) -> bool {
    &&& r is Err ==> s2 == s
    &&& r == Err::<Seq<Effect>, ConfigError>(ConfigError::TimeZone) <==> !setting.valid()
    &&& setting.valid() && always_renders(setting.file_time_format) ==> r is Ok
    &&& r matches Ok(e) ==> reconfigured(s, setting, names, s2, e)
}

/// Whether `s2` and `r` are what `init` with `setting` gives on `s`: on a
/// logger not yet initialized, what `set` gives; on one already initialized,
/// the record of a warning, with the configuration kept.
pub open spec fn init_result(
    s: LoggerModel,
    setting: SettingModel,
    names: Seq<Seq<char>>,
    s2: LoggerModel,
    r: Result<Seq<Effect>, ConfigError>,
) -> bool {
    if s.init {
        &&& r is Ok
        &&& exists|t: Time, days: Seq<Option<Seq<char>>>|
            #[trigger] recorded(
                s,
                LogLevel::Warn,
                REPEATED_INIT@,
                INIT_ORIGIN@,
                t,
                days,
                s2,
                r->Ok_0,
            )
    } else {
        set_result(s, setting, names, s2, r)
    }
}

/// Whether `s2` and `effects` are what clearing the directory of `s` gives:
/// the open file is closed, the directory emptied, and the index and line
/// count start again at 0, in a date group read anew where the date could be
/// rendered.
pub open spec fn cleared(s: LoggerModel, s2: LoggerModel, effects: Seq<Effect>) -> bool {
    &&& effects == close_if(s.file_open) + seq![Effect::ResetDir(s.setting.dir_path)]
    &&& s2 == LoggerModel { file_open: false, index: 0, used: 0, prefix: s2.prefix, ..s }
    &&& s2.prefix == s.prefix || is_date_for(s2.prefix, s.setting)
    &&& always_renders(s.setting.file_time_format) ==> is_date_for(s2.prefix, s.setting)
}

/// The log writer: which file it writes to, how full that file is, and how
/// it routes each line.
#[derive(Debug)]
pub struct Logger {
    file_open: bool,
    current_index: usize,
    used_length: usize,
    current_file_prefix: String,
    init: bool,
    setting: Setting,
}

impl View for Logger {
    type V = LoggerModel;

    closed spec fn view(&self) -> LoggerModel {
        LoggerModel {
            file_open: self.file_open,
            index: self.current_index as nat,
            used: self.used_length as nat,
            prefix: self.current_file_prefix@,
            init: self.init,
            setting: self.setting@,
        }
    }
}

/// A logger model that the logger's operations keep: its zone is valid, and
/// lines are counted only while a file is open.
pub open spec fn model_wf(s: LoggerModel) -> bool {
    s.setting.valid() && (s.used > 0 ==> s.file_open)
}

impl Logger {
    pub open spec fn wf(&self) -> bool {
        model_wf(self@)
    }

    /// Sends one line where its level admits it.
    fn route(&mut self, line: &LogMessage, actions: &mut Vec<Action>)
        requires
            old(self).wf(),
            line@.time.wf(),
            room(old(self)@, 1),
        ensures
            final(self).wf(),
            (final(self)@, effects_of(final(actions)@)) == ({
                let (s, e) = route_line(old(self)@, line@);
                (s, effects_of(old(actions)@) + e)
            }),
    {
        let ghost s = self@;
        let text = line.print();
        let level = line.level();
        if self.setting.print_out && self.setting.terminal_print_level.lets_through(&level) {
            actions.push(Action::Print(text.clone()));
        }
        if self.setting.file_record_level.lets_through(&level) {
            if !self.file_open {
                let path = log_path_of(
                    self.setting.dir_path.as_str(),
                    self.current_file_prefix.as_str(),
                    self.current_index,
                );
                actions.push(Action::Open(path));
                self.file_open = true;
            }
            actions.push(Action::Append(text));
            self.used_length = self.used_length + 1;
        }
        proof {
            let (s2, e) = route_line(s, line@);
            assert(effects_of(actions@) =~= effects_of(old(actions)@) + e);
        }
    }

    /// Begins a new date group where `today` is known and differs from the current one.
    fn roll(&mut self, today: &Option<String>, actions: &mut Vec<Action>)
        requires
            old(self).wf(),
        ensures
            final(self).wf(),
            final(self)@.index + final(self)@.used <= old(self)@.index + old(self)@.used,
            (final(self)@, effects_of(final(actions)@)) == ({
                let (s, e) = roll_day(
                    old(self)@,
                    match today {
                        Some(t) => Some(t@),
                        None => None,
                    },
                );
                (s, effects_of(old(actions)@) + e)
            }),
    {
        if let Some(t) = today {
            if *t != self.current_file_prefix {
                if self.file_open {
                    actions.push(Action::Close);
                }
                self.file_open = false;
                self.current_index = 0;
                self.used_length = 0;
                self.current_file_prefix = t.clone();
            }
        }
        assert(effects_of(actions@) =~= effects_of(old(actions)@) + roll_day(
            old(self)@,
            match today {
                Some(t) => Some(t@),
                None => None,
            },
        ).1);
    }

    /// Closes the current file and begins the next index where the size limit
    /// is set and reached.
    fn rotate_if_full(&mut self, actions: &mut Vec<Action>)
        requires
            old(self).wf(),
            room(old(self)@, 1),
        ensures
            final(self).wf(),
            (final(self)@, effects_of(final(actions)@)) == ({
                let (s, e) = rotate(old(self)@);
                (s, effects_of(old(actions)@) + e)
            }),
    {
        if self.setting.single_length != 0 && self.used_length >= self.setting.single_length {
            if self.file_open {
                actions.push(Action::Close);
            }
            self.current_index = self.current_index + 1;
            self.used_length = 0;
            self.file_open = false;
        }
        assert(effects_of(actions@) =~= effects_of(old(actions)@) + rotate(old(self)@).1);
    }

    /// Carries out one message split into `lines`, with `days[k]` the date read
    /// just before line `k`, and gives the actions that carry it out.
    pub fn write_lines(&mut self, lines: &Vec<LogMessage>, days: &Vec<Option<String>>) -> (r: Vec<
        Action,
    >)
        requires
            old(self).wf(),
            lines.len() == days.len(),
            forall|k: int| 0 <= k < lines.len() ==> (#[trigger] lines[k])@.time.wf(),
            room(old(self)@, (lines.len() + 1) as nat),
        ensures
            final(self).wf(),
            (final(self)@, effects_of(r@)) == write_spec(
                old(self)@,
                messages_of(lines@),
                days_of(days@),
            ),
    {
        let mut actions: Vec<Action> = Vec::new();
        if self.setting.disabled {
            assert(effects_of(actions@) =~= seq![]);
            return actions;
        }
        let ghost s0 = self@;
        let ghost msgs = messages_of(lines@);
        let ghost ds = days_of(days@);
        let mut k: usize = 0;
        proof {
            assert(msgs.take(0) =~= Seq::<MessageModel>::empty());
            assert(effects_of(actions@) =~= seq![]);
        }
        while k < lines.len()
            invariant
                s0 == old(self)@,
                !s0.setting.disabled,
                self.wf(),
                self@.setting == s0.setting,
                msgs == messages_of(lines@),
                ds == days_of(days@),
                lines.len() == days.len(),
                forall|j: int| 0 <= j < lines.len() ==> (#[trigger] lines[j])@.time.wf(),
                k <= lines.len(),
                self@.index + self@.used + (lines.len() - k) <= s0.index + s0.used + lines.len(),
                room(s0, (lines.len() + 1) as nat),
                (self@, effects_of(actions@)) == run_lines(s0, msgs.take(k as int), ds.take(k as int)),
            decreases lines.len() - k,
        {
            proof {
                assert(msgs.take(k + 1).drop_last() =~= msgs.take(k as int));
                assert(ds.take(k + 1).drop_last() =~= ds.take(k as int));
                assert(msgs.take(k + 1).last() == lines[k as int]@);
                assert(ds.take(k + 1).last() == match days[k as int] {
                    Some(t) => Some(t@),
                    None => None,
                });
            }
            self.roll(&days[k], &mut actions);
            self.route(&lines[k], &mut actions);
            proof {
                let (s1, e1) = run_lines(s0, msgs.take(k as int), ds.take(k as int));
                let (s2, e2) = step_line(s1, msgs.take(k + 1).last(), ds.take(k + 1).last());
                let (sa, ea) = roll_day(s1, ds.take(k + 1).last());
                let (sb, eb) = route_line(sa, msgs.take(k + 1).last());
                assert(e2 == ea + eb);
                assert(effects_of(actions@) =~= e1 + e2);
            }
            k = k + 1;
        }
        proof {
            assert(msgs.take(lines.len() as int) =~= msgs);
            assert(ds.take(lines.len() as int) =~= ds);
        }
        let ghost e1 = effects_of(actions@);
        self.rotate_if_full(&mut actions);
        proof {
            let (s2, e2) = rotate(run_lines(s0, msgs, ds).0);
            assert(effects_of(actions@) =~= e1 + e2);
        }
        actions
    }

    /// A logger with the default configuration, not yet initialized, whose
    /// date group is today's (UTC) and whose index resumes after the files
    /// named `existing` that the directory already holds.
    pub fn new(existing: &Vec<String>) -> (r: Logger)
        ensures
            r.wf(),
            r@.setting == default_setting(),
            !r@.file_open,
            r@.used == 0,
            !r@.init,
            r@.index == first_free_index(r@.prefix, views_of(existing@)),
            is_date_for(r@.prefix, default_setting()),
    {
        let setting = Setting::default();
        let prefix = today(setting.time_zone, setting.file_time_format.as_str()).unwrap();
        let current_index = recover_index(prefix.as_str(), existing);
        Logger {
            file_open: false,
            current_index,
            used_length: 0,
            current_file_prefix: prefix,
            init: false,
            setting,
        }
    }

    /// The index of the current file within its date group.
    pub fn current_index(&self) -> (r: usize)
        ensures
            r == self@.index,
    {
        self.current_index
    }

    /// The number of lines written to the current file.
    pub fn used_length(&self) -> (r: usize)
        ensures
            r == self@.used,
    {
        self.used_length
    }

    /// Whether an output file is open.
    pub fn is_file_open(&self) -> (r: bool)
        ensures
            r == self@.file_open,
    {
        self.file_open
    }

    /// Whether the logger was initialized, or has recorded a message.
    pub fn is_initialized(&self) -> (r: bool)
        ensures
            r == self@.init,
    {
        self.init
    }

    /// The date the current group of files was opened under.
    pub fn current_file_prefix(&self) -> (r: &String)
        ensures
            r@ == self@.prefix,
    {
        &self.current_file_prefix
    }

    /// The configuration in force.
    pub fn setting(&self) -> (r: &Setting)
        ensures
            r@ == self@.setting,
    {
        &self.setting
    }

    /// Whether a message of `n` characters can be recorded without the
    /// counters overflowing.
    pub fn has_room(&self, n: usize) -> (r: bool)
        ensures
            r == room(self@, n as nat + 2),
    {
        n < usize::MAX - 2 && self.current_index < usize::MAX - 2 - n && self.used_length
            < usize::MAX - 2 - n - self.current_index
    }

    /// Stops all output; counters and files are left as they are.
    pub fn disable(&mut self)
        ensures
            final(self)@ == (LoggerModel {
                setting: SettingModel { disabled: true, ..old(self)@.setting },
                ..old(self)@
            }),
    {
        self.setting.disabled = true;
    }

    /// Resumes output where it stopped.
    pub fn enable(&mut self)
        ensures
            final(self)@ == (LoggerModel {
                setting: SettingModel { disabled: false, ..old(self)@.setting },
                ..old(self)@
            }),
    {
        self.setting.disabled = false;
    }

    /// Replaces the configuration with `setting`, where `existing` names the
    /// files already in its directory. The open file is closed, the date group
    /// is read anew in the new zone and pattern, its index resumes after the
    /// existing files, and the line count starts again. A zone outside
    /// (-24, 24) hours, or a date pattern that cannot be rendered, is refused
    /// and leaves the logger as it was.
    pub fn set(&mut self, setting: Setting, existing: &Vec<String>) -> (r: Result<
        Vec<Action>,
        ConfigError,
    >)
        requires
            old(self).wf(),
        ensures
            final(self).wf(),
            set_result(old(self)@, setting@, views_of(existing@), final(self)@, outcome(r)),
    {
        if !(-24 < setting.time_zone && setting.time_zone < 24) {
            return Err(ConfigError::TimeZone);
        }
        let day = today(setting.time_zone, setting.file_time_format.as_str());
        let prefix = match day {
            Some(t) => t,
            None => {
                return Err(ConfigError::TimeFormat);
            },
        };
        let mut actions: Vec<Action> = Vec::new();
        if self.file_open {
            actions.push(Action::Close);
        }
        self.file_open = false;
        self.current_index = recover_index(prefix.as_str(), existing);
        self.used_length = 0;
        self.current_file_prefix = prefix;
        self.init = true;
        self.setting = setting;
        assert(effects_of(actions@) =~= close_if(old(self)@.file_open));
        Ok(actions)
    }

    /// Initializes the logger with `setting`, as `set` does. A logger already
    /// initialized keeps its configuration and records a warning instead.
    pub fn init(&mut self, setting: Setting, existing: &Vec<String>) -> (r: Result<
        Vec<Action>,
        ConfigError,
    >)
        requires
            old(self).wf(),
            old(self)@.init ==> room(old(self)@, REPEATED_INIT@.len() + 2),
        ensures
            final(self).wf(),
            init_result(old(self)@, setting@, views_of(existing@), final(self)@, outcome(r)),
    {
        if self.init {
            let origin = String::from_str(INIT_ORIGIN);
            let a = self.warn(REPEATED_INIT, origin);
            proof {
                let (t, days) = choose|t: Time, days: Seq<Option<Seq<char>>>|
                    #[trigger] recorded(
                        old(self)@,
                        LogLevel::Warn,
                        REPEATED_INIT@,
                        origin@,
                        t,
                        days,
                        self@,
                        effects_of(a@),
                    );
                let r = Ok::<Vec<Action>, ConfigError>(a);
                assert(outcome(r)->Ok_0 == effects_of(a@));
                assert(recorded(
                    old(self)@,
                    LogLevel::Warn,
                    REPEATED_INIT@,
                    INIT_ORIGIN@,
                    t,
                    days,
                    self@,
                    outcome(r)->Ok_0,
                ));
                assert(init_result(old(self)@, setting@, views_of(existing@), self@, outcome(r)));
            }
            return Ok(a);
        }
        self.set(setting, existing)
    }

    /// Removes every file from the log directory and starts again at index 0
    /// of a date group read anew; where the date cannot be rendered, the group
    /// stays as it was.
    pub fn clear_dir(&mut self) -> (r: Vec<Action>)
        requires
            old(self).wf(),
        ensures
            final(self).wf(),
            cleared(old(self)@, final(self)@, effects_of(r@)),
    {
        let mut actions: Vec<Action> = Vec::new();
        if self.file_open {
            actions.push(Action::Close);
        }
        actions.push(Action::ResetDir(self.setting.dir_path.clone()));
        self.file_open = false;
        self.current_index = 0;
        self.used_length = 0;
        if let Some(t) = today(self.setting.time_zone, self.setting.file_time_format.as_str()) {
            self.current_file_prefix = t;
        }
        assert(effects_of(actions@) =~= close_if(old(self)@.file_open) + seq![
            Effect::ResetDir(old(self)@.setting.dir_path),
        ]);
        actions
    }

    /// Records an info message.
    pub fn info(&mut self, message: &str, position: String) -> (r: Vec<Action>)
        requires
            old(self).wf(),
            room(old(self)@, message@.len() + 2),
        ensures
            final(self).wf(),
            exists|t: Time, days: Seq<Option<Seq<char>>>|
                #[trigger] recorded(
                    old(self)@,
                    LogLevel::Info,
                    message@,
                    position@,
                    t,
                    days,
                    final(self)@,
                    effects_of(r@),
                ),
    {
        self.record(LogLevel::Info, message, position)
    }

    /// Records a debug message.
    pub fn debug(&mut self, message: &str, position: String) -> (r: Vec<Action>)
        requires
            old(self).wf(),
            room(old(self)@, message@.len() + 2),
        ensures
            final(self).wf(),
            exists|t: Time, days: Seq<Option<Seq<char>>>|
                #[trigger] recorded(
                    old(self)@,
                    LogLevel::Debug,
                    message@,
                    position@,
                    t,
                    days,
                    final(self)@,
                    effects_of(r@),
                ),
    {
        self.record(LogLevel::Debug, message, position)
    }

    /// Records a warning.
    pub fn warn(&mut self, message: &str, position: String) -> (r: Vec<Action>)
        requires
            old(self).wf(),
            room(old(self)@, message@.len() + 2),
        ensures
            final(self).wf(),
            exists|t: Time, days: Seq<Option<Seq<char>>>|
                #[trigger] recorded(
                    old(self)@,
                    LogLevel::Warn,
                    message@,
                    position@,
                    t,
                    days,
                    final(self)@,
                    effects_of(r@),
                ),
    {
        self.record(LogLevel::Warn, message, position)
    }

    /// Records an error.
    pub fn error(&mut self, message: &str, position: String) -> (r: Vec<Action>)
        requires
            old(self).wf(),
            room(old(self)@, message@.len() + 2),
        ensures
            final(self).wf(),
            exists|t: Time, days: Seq<Option<Seq<char>>>|
                #[trigger] recorded(
                    old(self)@,
                    LogLevel::Error,
                    message@,
                    position@,
                    t,
                    days,
                    final(self)@,
                    effects_of(r@),
                ),
    {
        self.record(LogLevel::Error, message, position)
    }

    /// Records a trace message.
    pub fn trace(&mut self, message: &str, position: String) -> (r: Vec<Action>)
        requires
            old(self).wf(),
            room(old(self)@, message@.len() + 2),
        ensures
            final(self).wf(),
            exists|t: Time, days: Seq<Option<Seq<char>>>|
                #[trigger] recorded(
                    old(self)@,
                    LogLevel::Trace,
                    message@,
                    position@,
                    t,
                    days,
                    final(self)@,
                    effects_of(r@),
                ),
    {
        self.record(LogLevel::Trace, message, position)
    }

    /// Carries out one message: splits it into lines and reads the date before
    /// each, unless the logger is disabled.
    fn write(&mut self, msg: &LogMessage) -> (r: Vec<Action>)
        requires
            old(self).wf(),
            msg@.time.wf(),
            room(old(self)@, msg@.body.len() + 2),
        ensures
            final(self).wf(),
            exists|days: Seq<Option<Seq<char>>>|
                days.len() == split_lines(msg@.body).len() && (!old(self)@.setting.disabled
                    ==> forall|k: int|
                    0 <= k < days.len() ==> day_read(#[trigger] days[k], old(self)@.setting)) && (
                final(self)@, effects_of(r@)) == #[trigger] write_spec(
                    old(self)@,
                    split_message(msg@),
                    days,
                ),
    {
        let lines = msg.split_enter();
        let mut days: Vec<Option<String>> = Vec::new();
        if !self.setting.disabled {
            let mut k: usize = 0;
            while k < lines.len()
                invariant
                    self.wf(),
                    self@ == old(self)@,
                    k <= lines.len(),
                    days.len() == k,
                    forall|j: int|
                        0 <= j < k ==> day_read(#[trigger] days_of(days@)[j], old(self)@.setting),
                decreases lines.len() - k,
            {
                let d = today(self.setting.time_zone, self.setting.file_time_format.as_str());
                let ghost before = days@;
                days.push(d);
                proof {
                    assert(days_of(days@) =~= days_of(before).push(
                        match d {
                            Some(t) => Some(t@),
                            None => None::<Seq<char>>,
                        },
                    ));
                }
                k = k + 1;
            }
        } else {
            let mut k: usize = 0;
            while k < lines.len()
                invariant
                    self@ == old(self)@,
                    self@.setting.disabled,
                    k <= lines.len(),
                    days.len() == k,
                decreases lines.len() - k,
            {
                days.push(None);
                k = k + 1;
            }
        }
        proof {
            lemma_count_breaks_bound(msg@.body);
            lemma_split_lines(msg@.body);
            assert forall|k: int| 0 <= k < lines.len() implies (#[trigger] lines[k])@.time.wf() by {
                assert(lines@.map_values(|m: LogMessage| m@)[k] == lines[k]@);
            }
            assert(messages_of(lines@) =~= split_message(msg@));
        }
        let r = self.write_lines(&lines, &days);
        assert(write_spec(old(self)@, split_message(msg@), days_of(days@)) == (self@, effects_of(r@)));
        r
    }

    /// Records a message of level `log_level`, with body `message` and origin
    /// `position`, stamped with the current instant. The logger counts as
    /// initialized from then on.
    pub fn record(&mut self, log_level: LogLevel, message: &str, position: String) -> (r: Vec<Action>)
        requires
            old(self).wf(),
            room(old(self)@, message@.len() + 2),
        ensures
            final(self).wf(),
            exists|t: Time, days: Seq<Option<Seq<char>>>|
                #[trigger] recorded(
                    old(self)@,
                    log_level,
                    message@,
                    position@,
                    t,
                    days,
                    final(self)@,
                    effects_of(r@),
                ),
    {
        if !self.init {
            self.init = true;
        }
        let mut time = Time::now(self.setting.time_zone);
        time.detailed_display = self.setting.time_detailed_display;
        let msg = LogMessage::at(log_level, String::from_str(message), time, position);
        assert(self@ == LoggerModel { init: true, ..old(self)@ });
        let r = self.write(&msg);
        proof {
            let s1 = LoggerModel { init: true, ..old(self)@ };
            let days = choose|days: Seq<Option<Seq<char>>>|
                days.len() == split_lines(msg@.body).len() && (!s1.setting.disabled
                    ==> forall|k: int|
                    0 <= k < days.len() ==> day_read(#[trigger] days[k], s1.setting)) && (
                self@, effects_of(r@)) == #[trigger] write_spec(s1, split_message(msg@), days);
            assert(recorded(old(self)@, log_level, message@, position@, time, days, self@, effects_of(r@)));
        }
        r
    }
}

} // verus!
