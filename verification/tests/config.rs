use autoasr::config::{is_due, AppConfig, ClockTime, ReadyError, TickAction};
use autoasr::segment::VadConfig;

fn ready_config() -> AppConfig {
    AppConfig {
        directory: Some("/media".to_string()),
        api_key: "key".to_string(),
        schedule_time: "02:30".to_string(),
        vad_enabled: true,
        vad_threshold: 700,
        vad_min_segment_millis: 1_000,
    }
}

fn clock(hour: u32, minute: u32) -> ClockTime {
    ClockTime { hour, minute }
}

#[test]
fn default_settings() {
    let config = AppConfig::default();
    assert_eq!(config.directory, None);
    assert_eq!(config.api_key, "");
    assert_eq!(config.schedule_time, "02:00");
    assert!(!config.vad_enabled);
    assert_eq!(config.vad_config(), None);
}

#[test]
fn detector_settings_come_from_the_users_choices() {
    let config = ready_config();
    assert_eq!(
        config.vad_config(),
        Some(VadConfig { threshold: 700, min_speech_chunks: 32, padding_chunks: 3 })
    );
}

#[test]
fn schedule_times_are_read_as_hour_and_minute() {
    let today = "2024-05-01";
    for (text, time) in [("02:00", clock(2, 0)), ("23:59", clock(23, 59)), ("7:05", clock(7, 5))] {
        let mut config = ready_config();
        config.schedule_time = text.to_string();
        assert_eq!(config.validate_ready_state(true), Ok(()));
        assert_eq!(
            config.on_tick(true, false, time, &None, today),
            TickAction::StartScan("/media".to_string())
        );
        assert_eq!(
            config.on_tick(true, false, clock(time.hour, (time.minute + 1) % 60), &None, today),
            TickAction::Idle
        );
    }
    for text in ["24:00", "12:60", "noon", "", "12", "12:00:00"] {
        let mut config = ready_config();
        config.schedule_time = text.to_string();
        assert_eq!(config.validate_ready_state(true), Err(ReadyError::InvalidScheduleTime));
        assert_eq!(config.on_tick(true, false, clock(12, 0), &None, today), TickAction::StopInvalidTime);
    }
}

#[test]
fn readiness_is_checked_in_order() {
    let config = ready_config();
    assert_eq!(config.manual_ready_state(true), Ok("/media".to_string()));
    assert_eq!(config.validate_ready_state(true), Ok(()));
    assert_eq!(config.manual_ready_state(false), Err(ReadyError::MissingDirectory));

    let mut config = ready_config();
    config.directory = None;
    config.api_key = String::new();
    assert_eq!(config.manual_ready_state(true), Err(ReadyError::NoDirectory));
    assert_eq!(config.validate_ready_state(false), Err(ReadyError::NoDirectory));

    let mut config = ready_config();
    config.api_key = "  ".to_string();
    config.schedule_time = "x".to_string();
    assert_eq!(config.manual_ready_state(false), Err(ReadyError::MissingDirectory));
    assert_eq!(config.manual_ready_state(true), Err(ReadyError::MissingApiKey));
    assert_eq!(config.validate_ready_state(true), Err(ReadyError::MissingApiKey));

    let mut config = ready_config();
    config.schedule_time = "25:00".to_string();
    assert_eq!(config.manual_ready_state(true), Ok("/media".to_string()));
    assert_eq!(config.validate_ready_state(true), Err(ReadyError::InvalidScheduleTime));
}

#[test]
fn readiness_errors_are_worded() {
    assert_eq!(ReadyError::NoDirectory.message(), "请先选择媒体目录。");
    assert_eq!(ReadyError::MissingDirectory.message(), "选择的目录不存在。");
    assert_eq!(ReadyError::MissingApiKey.message(), "需要填写 API 密钥。");
    assert_eq!(ReadyError::InvalidScheduleTime.message(), "执行时间必须符合 HH:MM 格式。");
}

#[test]
fn the_run_is_due_once_a_day() {
    let today = "2024-05-01";
    assert!(is_due(clock(2, 30), clock(2, 30), &None, today));
    assert!(is_due(clock(2, 30), clock(2, 30), &Some("2024-04-30".to_string()), today));
    assert!(!is_due(clock(2, 30), clock(2, 30), &Some(today.to_string()), today));
    assert!(!is_due(clock(2, 31), clock(2, 30), &None, today));
    assert!(!is_due(clock(3, 30), clock(2, 30), &None, today));
}

#[test]
fn ticks_start_the_scan_when_due() {
    let config = ready_config();
    let today = "2024-05-01";
    assert_eq!(
        config.on_tick(true, false, clock(2, 30), &None, today),
        TickAction::StartScan("/media".to_string())
    );
    assert_eq!(config.on_tick(false, false, clock(2, 30), &None, today), TickAction::Idle);
    assert_eq!(config.on_tick(true, true, clock(2, 30), &None, today), TickAction::Idle);
    assert_eq!(config.on_tick(true, false, clock(2, 29), &None, today), TickAction::Idle);
    assert_eq!(
        config.on_tick(true, false, clock(2, 30), &Some(today.to_string()), today),
        TickAction::Idle
    );

    let mut config = ready_config();
    config.directory = None;
    assert_eq!(
        config.on_tick(true, false, clock(2, 30), &None, today),
        TickAction::ReportNoDirectory
    );
    config.schedule_time = "soon".to_string();
    assert_eq!(config.on_tick(true, false, clock(2, 30), &None, today), TickAction::StopInvalidTime);
    assert_eq!(config.on_tick(false, false, clock(2, 30), &None, today), TickAction::Idle);
}
