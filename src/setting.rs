use crate::level::LogLevel;
use crate::time::{zone_ok, DAY_PATTERN};
use vstd::prelude::*;

verus! {

/// What a configuration is, with its texts as character sequences.
pub struct SettingModel {
    pub dir_path: Seq<char>,
    pub single_length: nat,
    pub file_record_level: LogLevel,
    pub terminal_print_level: LogLevel,
    pub time_detailed_display: bool,
    pub file_time_format: Seq<char>,
    pub time_zone: i32,
    pub print_out: bool,
    pub disabled: bool,
}

/// The configuration of the logger.
#[derive(Debug)]
pub struct Setting {
    /// The directory that holds the log files.
    pub dir_path: String,
    /// The number of lines after which a file is closed and the next begun;
    /// 0 for no limit.
    pub single_length: usize,
    /// The least level that is written to file.
    pub file_record_level: LogLevel,
    /// The least level that is printed to the console.
    pub terminal_print_level: LogLevel,
    /// Whether to show instants in UTC with the zone's offset beside them.
    pub time_detailed_display: bool,
    /// The strftime pattern of the date that names a group of files and marks a
    /// new day.
    pub file_time_format: String,
    /// The offset of the zone that dates and times are shown in, in hours.
    pub time_zone: i32,
    /// Whether to print to the console at all.
    pub print_out: bool,
    /// Whether to suppress all output.
    pub disabled: bool,
}

impl View for Setting {
    type V = SettingModel;

    open spec fn view(&self) -> SettingModel {
        SettingModel {
            dir_path: self.dir_path@,
            single_length: self.single_length as nat,
            file_record_level: self.file_record_level,
            terminal_print_level: self.terminal_print_level,
            time_detailed_display: self.time_detailed_display,
            file_time_format: self.file_time_format@,
            time_zone: self.time_zone,
            print_out: self.print_out,
            disabled: self.disabled,
        }
    }
}

/// The configuration a logger starts with: files under `./logs` named by the
/// UTC date, no size limit, every level to file, debug and above to the
/// console, and the console switched off.
pub open spec fn default_setting() -> SettingModel {
    SettingModel {
        dir_path: "./logs"@,
        single_length: 0,
        file_record_level: LogLevel::Trace,
        terminal_print_level: LogLevel::Debug,
        time_detailed_display: false,
        file_time_format: DAY_PATTERN@,
        time_zone: 0,
        print_out: false,
        disabled: false,
    }
}

impl SettingModel {
    /// A configuration the logger can work with: its zone is a valid offset.
    pub open spec fn valid(self) -> bool {
        zone_ok(self.time_zone)
    }
}

impl Default for Setting {
    fn default() -> (r: Setting)
        ensures
            r@ == default_setting(),
    {
        Setting {
            dir_path: String::from_str("./logs"),
            single_length: 0,
            file_record_level: LogLevel::Trace,
            terminal_print_level: LogLevel::Debug,
            time_detailed_display: false,
            file_time_format: String::from_str(DAY_PATTERN),
            time_zone: 0,
            print_out: false,
            disabled: false,
        }
    }
}

/// Why a configuration was refused.
#[derive(Clone, Copy, Debug, PartialEq, Eq, Structural)]
pub enum ConfigError {
    /// The zone offset is not strictly between -24 and 24 hours.
    TimeZone,
    /// The file date pattern holds an item that cannot be rendered.
    TimeFormat,
}

} // verus!
