//! A leveled, rotating log sink.
//!
//! The verified core decides what happens to each emitted message: which lines
//! reach the console, which reach a file, which file they go to, and when the
//! current file is closed and a new one begun. It hands that decision back as a
//! list of [`Action`]s for the embedding program to carry out.

use vstd::prelude::*;

pub mod laws;
pub mod level;
pub mod logger;
pub mod msg;
pub mod naming;
pub mod setting;
pub mod time;

pub use level::LogLevel;
pub use logger::{Action, Logger};
pub use msg::LogMessage;
pub use setting::{ConfigError, Setting};
pub use time::Time;

use logger::{
    cleared, effects_of, init_result, outcome, room, set_result, LoggerModel, REPEATED_INIT,
};
use setting::SettingModel;
use naming::views_of;

verus! {

/// Initializes `logger` with `setting`, where `existing` names the files
/// already in the setting's directory. A logger already initialized keeps its
/// configuration and records a warning instead.
pub fn init(logger: &mut Logger, setting: Setting, existing: &Vec<String>) -> (r: Result<
    Vec<Action>,
    ConfigError,
>)
    requires
        old(logger).wf(),
        old(logger)@.init ==> room(old(logger)@, REPEATED_INIT@.len() + 2),
    ensures
        final(logger).wf(),
        init_result(old(logger)@, setting@, views_of(existing@), final(logger)@, outcome(r)),
{
    logger.init(setting, existing)
}

/// Removes every log file from `logger`'s directory and starts again at index 0.
pub fn clean_log(logger: &mut Logger) -> (r: Vec<Action>)
    requires
        old(logger).wf(),
    ensures
        final(logger).wf(),
        cleared(old(logger)@, final(logger)@, effects_of(r@)),
{
    logger.clear_dir()
}

/// Replaces `logger`'s configuration with `setting`, where `existing` names
/// the files already in the setting's directory.
pub fn set(logger: &mut Logger, setting: Setting, existing: &Vec<String>) -> (r: Result<
    Vec<Action>,
    ConfigError,
>)
    requires
        old(logger).wf(),
    ensures
        final(logger).wf(),
        set_result(old(logger)@, setting@, views_of(existing@), final(logger)@, outcome(r)),
{
    logger.set(setting, existing)
}

/// Resumes output of `logger`.
pub fn enable_log(logger: &mut Logger)
    ensures
        final(logger)@ == (LoggerModel {
            setting: SettingModel { disabled: false, ..old(logger)@.setting },
            ..old(logger)@
        }),
{
    logger.enable()
}

/// Stops all output of `logger`.
pub fn disable_log(logger: &mut Logger)
    ensures
        final(logger)@ == (LoggerModel {
            setting: SettingModel { disabled: true, ..old(logger)@.setting },
            ..old(logger)@
        }),
{
    logger.disable()
}

} // verus!
