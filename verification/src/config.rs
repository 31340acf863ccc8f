//! The settings a user keeps between runs, and what is decided from
//! them: whether a scan may start, and when the daily run is due.

use vstd::prelude::*;
use vstd::string::StringExecFns;
use crate::segment::VadConfig;
use crate::text::{is_blank, spec_is_blank, text_of};

verus! {

/// Settings shared by the scan and its front end.
#[derive(Clone, Debug, PartialEq, Eq)]
pub struct AppConfig {
    /// Root directory of the media files; `None` until one was chosen.
    pub directory: Option<String>,
    /// Credential for the transcription service.
    pub api_key: String,
    /// Time of the daily run, as `HH:MM` on a 24-hour clock.
    pub schedule_time: String,
    /// Whether files are segmented by voice activity.
    pub vad_enabled: bool,
    /// Speech threshold of the detector, in thousandths.
    pub vad_threshold: u32,
    /// Shortest run of speech that is kept, in milliseconds.
    pub vad_min_segment_millis: u32,
}

impl Default for AppConfig {
    /// No directory, no credential, a daily run at two in the morning,
    /// and segmentation switched off with the detector's own defaults.
    fn default() -> (config: Self)
        ensures
            config.directory is None,
            config.api_key@ == Seq::<char>::empty(),
            config.schedule_time@ == "02:00"@,
            !config.vad_enabled,
            config.vad_threshold == 600,
            config.vad_min_segment_millis == 2_000,
    {
        AppConfig {
            directory: None,
            api_key: String::new(),
            schedule_time: String::from_str("02:00"),
            vad_enabled: false,
            vad_threshold: 600,
            vad_min_segment_millis: 2_000,
        }
    }
}

impl AppConfig {
    /// The detector settings a scan is started with: none when
    /// segmentation is switched off, else the user's choices within
    /// their limits.
    pub fn vad_config(&self) -> (vad: Option<VadConfig>)
        ensures
            vad == (if self.vad_enabled {
                Some(
                    VadConfig::spec_from_user_settings(
                        self.vad_threshold,
                        self.vad_min_segment_millis,
                    ),
                )
            } else {
                None
            }),
    {
        if self.vad_enabled {
            Some(VadConfig::from_user_settings(self.vad_threshold, self.vad_min_segment_millis))
        } else {
            None
        }
    }
}

/// A time of day, to the minute.
#[derive(Clone, Copy, Debug, PartialEq, Eq, Structural)]
pub struct ClockTime {
    /// Hour of the day.
    pub hour: u32,
    /// Minute of the hour.
    pub minute: u32,
}

/// The hour and the minute that `chrono::NaiveTime::parse_from_str`
/// reads from `text` under the format `%H:%M`, if it accepts `text`.
pub uninterp spec fn schedule_time_of(text: Seq<char>) -> Option<ClockTime>;

/// Parses `text` with `chrono::NaiveTime::parse_from_str` under the
/// format `%H:%M` and hands back `hour()` and `minute()` of the time;
/// the contract only names what that yields.
#[verifier::external_body]
fn parse_clock(text: &str) -> (time: Option<ClockTime>)
    ensures
        time == schedule_time_of(text@),
{
    let parsed = chrono::NaiveTime::parse_from_str(text, "%H:%M").ok()?;
    Some(ClockTime { hour: chrono::Timelike::hour(&parsed), minute: chrono::Timelike::minute(&parsed) })
}

/// Why a scan cannot start.
#[derive(Clone, Copy, Debug, PartialEq, Eq, Structural)]
pub enum ReadyError {
    /// No directory was chosen.
    NoDirectory,
    /// The chosen directory does not exist.
    MissingDirectory,
    /// The credential is empty or blank.
    MissingApiKey,
    /// The time of the daily run is not of the form `HH:MM`.
    InvalidScheduleTime,
}

impl ReadyError {
    /// What the error says.
    pub open spec fn spec_message(self) -> Seq<char> {
        match self {
            ReadyError::NoDirectory => "请先选择媒体目录。"@,
            ReadyError::MissingDirectory => "选择的目录不存在。"@,
            ReadyError::MissingApiKey => "需要填写 API 密钥。"@,
            ReadyError::InvalidScheduleTime => "执行时间必须符合 HH:MM 格式。"@,
        }
    }

    /// What the error says.
    pub fn message(&self) -> (text: String)
        ensures
            text@ == self.spec_message(),
    {
        match self {
            ReadyError::NoDirectory => String::from_str("请先选择媒体目录。"),
            ReadyError::MissingDirectory => String::from_str("选择的目录不存在。"),
            ReadyError::MissingApiKey => String::from_str("需要填写 API 密钥。"),
            ReadyError::InvalidScheduleTime => String::from_str("执行时间必须符合 HH:MM 格式。"),
        }
    }
}

/// Whether a scan can be started by hand: a directory is chosen, it
/// exists, and the credential is not blank, looked at in this order.
pub open spec fn spec_manual_ready(
    directory: Option<Seq<char>>,
    directory_exists: bool,
    api_key: Seq<char>,
) -> Result<Seq<char>, ReadyError> {
    match directory {
        None => Err(ReadyError::NoDirectory),
        Some(dir) => if !directory_exists {
            Err(ReadyError::MissingDirectory)
        } else if spec_is_blank(api_key) {
            Err(ReadyError::MissingApiKey)
        } else {
            Ok(dir)
        },
    }
}

/// Whether the daily run can be switched on: a scan could be started by
/// hand, and the time of the run can be read.
pub open spec fn spec_schedule_ready(
    directory: Option<Seq<char>>,
    directory_exists: bool,
    api_key: Seq<char>,
    schedule_time: Seq<char>,
) -> Result<(), ReadyError> {
    match spec_manual_ready(directory, directory_exists, api_key) {
        Err(error) => Err(error),
        Ok(_) => if schedule_time_of(schedule_time) is None {
            Err(ReadyError::InvalidScheduleTime)
        } else {
            Ok(())
        },
    }
}

/// The directory of a readiness check, or the error.
pub open spec fn directory_of(outcome: Result<String, ReadyError>) -> Result<Seq<char>, ReadyError> {
    match outcome {
        Ok(dir) => Ok(dir@),
        Err(error) => Err(error),
    }
}

impl AppConfig {
    /// Checks whether a scan can be started by hand and yields the
    /// directory to scan. `directory_exists` tells whether the chosen
    /// directory is there.
    pub fn manual_ready_state(&self, directory_exists: bool) -> (outcome: Result<
        String,
        ReadyError,
    >)
        ensures
            directory_of(outcome) == spec_manual_ready(
                text_of(self.directory),
                directory_exists,
                self.api_key@,
            ),
    {
        match &self.directory {
            None => Err(ReadyError::NoDirectory),
            Some(dir) => {
                if !directory_exists {
                    Err(ReadyError::MissingDirectory)
                } else if is_blank(self.api_key.as_str()) {
                    Err(ReadyError::MissingApiKey)
                } else {
                    Ok(dir.clone())
                }
            },
        }
    }

    /// Checks whether the daily run can be switched on.
    pub fn validate_ready_state(&self, directory_exists: bool) -> (outcome: Result<(), ReadyError>)
        ensures
            outcome == spec_schedule_ready(
                text_of(self.directory),
                directory_exists,
                self.api_key@,
                self.schedule_time@,
            ),
    {
        match self.manual_ready_state(directory_exists) {
            Err(error) => Err(error),
            Ok(_) => {
                if parse_clock(self.schedule_time.as_str()).is_none() {
                    Err(ReadyError::InvalidScheduleTime)
                } else {
                    Ok(())
                }
            },
        }
    }
}

/// What the scheduler does at a tick of the clock.
#[derive(Clone, Debug, PartialEq, Eq)]
pub enum TickAction {
    /// Nothing.
    Idle,
    /// The time of the run cannot be read: the schedule is switched off.
    StopInvalidTime,
    /// The run is due but no directory was chosen.
    ReportNoDirectory,
    /// The run is due: scan this directory and remember today's date.
    StartScan(String),
}

/// What a tick action says.
pub enum TickView {
    /// Nothing.
    Idle,
    /// The schedule is switched off.
    StopInvalidTime,
    /// The run is due but no directory was chosen.
    ReportNoDirectory,
    /// The run is due for this directory.
    StartScan(Seq<char>),
}

impl View for TickAction {
    type V = TickView;

    open spec fn view(&self) -> TickView {
        match self {
            TickAction::Idle => TickView::Idle,
            TickAction::StopInvalidTime => TickView::StopInvalidTime,
            TickAction::ReportNoDirectory => TickView::ReportNoDirectory,
            TickAction::StartScan(dir) => TickView::StartScan(dir@),
        }
    }
}

/// Whether the daily run is due: the clock shows the hour and minute of
/// the run and no run was started on this day yet.
pub open spec fn spec_is_due(
    now: ClockTime,
    target: ClockTime,
    last_run_date: Option<Seq<char>>,
    today: Seq<char>,
) -> bool {
    now.hour == target.hour && now.minute == target.minute && last_run_date != Some(today)
}

/// Decides whether the daily run is due.
pub fn is_due(now: ClockTime, target: ClockTime, last_run_date: &Option<String>, today: &str) -> (due:
    bool)
    ensures
        due == spec_is_due(now, target, text_of(*last_run_date), today@),
{
    let ran_today = match last_run_date {
        Some(date) => date.as_str().eq(today),
        None => false,
    };
    now.hour == target.hour && now.minute == target.minute && !ran_today
}

/// What the scheduler does at a tick: nothing unless the schedule is on
/// and no scan is under way; then the schedule is stopped if its time
/// cannot be read, and a scan of the chosen directory is started if the
/// run is due.
pub open spec fn spec_on_tick(
    is_running: bool,
    is_processing: bool,
    target: Option<ClockTime>,
    now: ClockTime,
    last_run_date: Option<Seq<char>>,
    today: Seq<char>,
    directory: Option<Seq<char>>,
) -> TickView {
    if !is_running || is_processing {
        TickView::Idle
    } else {
        match target {
            None => TickView::StopInvalidTime,
            Some(time) => if spec_is_due(now, time, last_run_date, today) {
                match directory {
                    Some(dir) => TickView::StartScan(dir),
                    None => TickView::ReportNoDirectory,
                }
            } else {
                TickView::Idle
            },
        }
    }
}

impl AppConfig {
    /// Decides what the scheduler does at a tick of the clock that shows
    /// `now` on the day `today`.
    pub fn on_tick(
        &self,
        is_running: bool,
        is_processing: bool,
        now: ClockTime,
        last_run_date: &Option<String>,
        today: &str,
    ) -> (action: TickAction)
        ensures
            action@ == spec_on_tick(
                is_running,
                is_processing,
                schedule_time_of(self.schedule_time@),
                now,
                text_of(*last_run_date),
                today@,
                text_of(self.directory),
            ),
    {
        if !is_running || is_processing {
            return TickAction::Idle;
        }
        match parse_clock(self.schedule_time.as_str()) {
            None => TickAction::StopInvalidTime,
            Some(target) => {
                if is_due(now, target, last_run_date, today) {
                    match &self.directory {
                        Some(dir) => TickAction::StartScan(dir.clone()),
                        None => TickAction::ReportNoDirectory,
                    }
                } else {
                    TickAction::Idle
                }
            },
        }
    }
}

} // verus!
