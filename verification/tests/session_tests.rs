//! End-to-end session scenarios, the worker and log-writer state machines,
//! the cancellation flag, and the configuration model.

use jfconsole::config::{baud_choice, select_index, Config, ConfigDto, ProcessorInfo, ProcessorInfoDto};
use jfconsole::line_printer::{format_log_line, Stamp, TriggerHook};
use jfconsole::log_writer::{log_file_name, LogAction, LogEvent, LogWriterState};
use jfconsole::session::{DeviceSetup, DeviceState, ReadLineRes, Session};
use jfconsole::sync_flag::new_sync_flag;
use jfconsole::user_io::RaisedError;
use jfconsole::worker::{worker_start, worker_step, WorkerAction, WorkerPhase};

fn stamp(s: &str) -> Stamp {
    Stamp::from_strs(s, s)
}

fn info(port: &str, nick: &str) -> ProcessorInfo {
    ProcessorInfo {
        port_name: port.to_string(),
        baud_rate: 115200,
        processor_name: nick.to_string(),
    }
}

fn two_device_session() -> Session {
    let setups = vec![
        DeviceSetup { info: info("/dev/ttyUSB0", "A"), trigger: None },
        DeviceSetup { info: info("/dev/ttyUSB1", "B"), trigger: None },
    ];
    Session::new(&setups, 64, 80, &stamp("S0")).unwrap()
}

#[test]
fn end_to_end_read_then_write() {
    let mut session = two_device_session();

    // Device A emits a full line: one record, readable in the log format.
    let emitted = session.feed_device(0, b"hello\r\n", &stamp("T1"));
    assert_eq!(emitted.len(), 1);
    assert_eq!(emitted[0].prefix, "A r");
    assert_eq!(emitted[0].complete, '|');
    assert_eq!(emitted[0].text, "hello");
    assert_eq!(format_log_line(&emitted[0]), "A r S0 | hello");

    // The operator types "ping" while A is selected: A's outbound queue
    // receives the bytes with the carriage return appended, and the same
    // text shows up as a write-side log record.
    let (running, emitted) = session.handle_console(&ReadLineRes::Line("ping".to_string()), &stamp("T2"));
    assert!(running);
    assert_eq!(emitted.len(), 1);
    assert_eq!(format_log_line(&emitted[0]), "A w S0 | ping");
    let wire = session.devices[0].take_outbound();
    assert_eq!(wire, b"ping\r".to_vec());
    // Device B saw nothing.
    assert!(session.devices[1].take_outbound().is_empty());
}

#[test]
fn switch_wraps_around() {
    let mut session = two_device_session();
    assert_eq!(session.selected, 0);
    let (running, emitted) = session.handle_console(&ReadLineRes::NextProcessor, &stamp("T1"));
    assert!(running && emitted.is_empty());
    assert_eq!(session.selected, 1);
    session.switch_next();
    assert_eq!(session.selected, 0);
}

#[test]
fn console_exit_stops() {
    let mut session = two_device_session();
    let (running, emitted) = session.handle_console(&ReadLineRes::Exit, &stamp("T1"));
    assert!(!running && emitted.is_empty());
}

#[test]
fn routed_line_goes_to_selected_device_only() {
    let mut session = two_device_session();
    session.switch_next();
    session.handle_console(&ReadLineRes::Line("to-b".to_string()), &stamp("T1"));
    assert!(session.devices[0].take_outbound().is_empty());
    assert_eq!(session.devices[1].take_outbound(), b"to-b\r".to_vec());
}

#[test]
fn empty_session_is_refused() {
    let setups: Vec<DeviceSetup> = Vec::new();
    let r = Session::new(&setups, 64, 80, &stamp("S0"));
    assert!(r.is_err());
    assert_eq!(r.err().unwrap().message(), "no processors configured");
}

#[test]
fn trigger_pushes_response_onto_outbound_queue() {
    let hook = TriggerHook {
        phrase: "IPC Comm Failure".to_string(),
        response: b"t ipcwdg\r".to_vec(),
    };
    let mut device = DeviceState::new(info("/dev/ttyUSB2", "C"), 64, 80, &stamp("S0"), Some(hook));
    device.feed_read_bytes(b"log: IPC Comm Failure seen\r\n", &stamp("T1"));
    assert_eq!(device.take_outbound(), b"t ipcwdg\r".to_vec());
    // Without the phrase, nothing is queued.
    device.feed_read_bytes(b"all quiet\r\n", &stamp("T2"));
    assert!(device.take_outbound().is_empty());
}

#[test]
fn worker_stops_on_dead_flag_within_one_step() {
    assert_eq!(worker_step(false, true), (WorkerPhase::Stopped, WorkerAction::Stop));
    assert_eq!(worker_step(false, false), (WorkerPhase::Stopped, WorkerAction::Stop));
    assert_eq!(worker_step(true, true), (WorkerPhase::Running, WorkerAction::Forward));
    assert_eq!(worker_step(true, false), (WorkerPhase::Running, WorkerAction::DrainQueue));
    assert_eq!(worker_start(true), (WorkerPhase::Running, false));
    assert_eq!(worker_start(false), (WorkerPhase::Stopped, true));
}

#[test]
fn log_writer_batches_syncs_and_stops_at_once_when_cancelled() {
    let mut w = LogWriterState::new();
    // A received line is written with CRLF appended.
    match w.on_event(true, LogEvent::Line("A r S0 | hello".to_string())) {
        LogAction::Write(bytes) => assert_eq!(bytes, "A r S0 | hello\r\n"),
        _ => panic!("expected a write"),
    }
    // First quiet period after a write syncs; the next one idles.
    assert!(matches!(w.on_event(true, LogEvent::TimedOut), LogAction::Sync));
    assert!(matches!(w.on_event(true, LogEvent::TimedOut), LogAction::Idle));
    // An exit right after a write asks for one final sync.
    w.on_event(true, LogEvent::Line("x".to_string()));
    assert!(matches!(w.on_event(true, LogEvent::Exit), LogAction::SyncAndStop));
    // A dead cancellation flag stops the writer whatever the event.
    let mut w2 = LogWriterState::new();
    assert!(matches!(w2.on_event(false, LogEvent::Line("y".to_string())), LogAction::Stop));
}

#[test]
fn log_file_name_embeds_project_and_stamp() {
    assert_eq!(log_file_name("myproj", "240102_030405"), "myproj_240102_030405.log");
}

#[test]
fn sync_flag_is_monotone() {
    let (victim, assassin) = new_sync_flag();
    assert!(victim.is_alive());
    let second_trigger = assassin.clone();
    assassin.kill_victim();
    assert!(!victim.is_alive());
    // Firing again through another handle keeps it dead.
    second_trigger.kill_victim();
    assert!(!victim.is_alive());
}

#[test]
fn config_from_dto_matches_ports() {
    let present = vec![info("/dev/ttyUSB0", ""), info("/dev/ttyUSB1", "")];
    let dto = ConfigDto {
        project_name: "proj".to_string(),
        processors: vec![
            ProcessorInfoDto {
                processor_name: "A".to_string(),
                baud_rate: 3000000,
                port_name: "/dev/ttyUSB1".to_string(),
            },
            ProcessorInfoDto {
                processor_name: "B".to_string(),
                baud_rate: 115200,
                port_name: "/dev/ttyUSB0".to_string(),
            },
        ],
    };
    let cfg = Config::from_dto("config/proj.json", &dto, &present).unwrap();
    assert_eq!(cfg.project_name, "proj");
    assert_eq!(cfg.project_path, "config/proj.json");
    assert_eq!(cfg.processors.len(), 2);
    assert_eq!(cfg.processors[0].port_name, "/dev/ttyUSB1");
    assert_eq!(cfg.processors[0].baud_rate, 3000000);
    assert_eq!(cfg.processors[0].processor_name, "A");
    assert_eq!(cfg.processors[1].port_name, "/dev/ttyUSB0");
}

#[test]
fn config_from_dto_rejects_missing_port() {
    let present = vec![info("/dev/ttyUSB0", "")];
    let dto = ConfigDto {
        project_name: "proj".to_string(),
        processors: vec![ProcessorInfoDto {
            processor_name: "A".to_string(),
            baud_rate: 115200,
            port_name: "/dev/ttyACM9".to_string(),
        }],
    };
    let r = Config::from_dto("p", &dto, &present);
    assert_eq!(r.err().unwrap().message(), "port not found");
}

#[test]
fn processor_info_round_trips_through_dto() {
    let p = info("/dev/ttyUSB0", "A");
    let dto = p.to_dto();
    assert_eq!(dto.port_name, "/dev/ttyUSB0");
    assert_eq!(dto.processor_name, "A");
    assert_eq!(dto.baud_rate, 115200);
    let discovered = ProcessorInfo::new("/dev/ttyUSB0".to_string());
    assert_eq!(discovered.processor_name, "");
    assert_eq!(discovered.baud_rate, 115200);
    let configured = discovered.duplicate_from_dto(&dto);
    assert_eq!(configured.processor_name, "A");
    let copy = p.duplicate();
    assert_eq!(copy.port_name, p.port_name);
    assert_eq!(copy.processor_name, p.processor_name);
}

#[test]
fn menu_selection_and_baud_choice() {
    assert_eq!(select_index(3, 0), None);
    assert_eq!(select_index(3, 1), Some(0));
    assert_eq!(select_index(3, 3), Some(2));
    assert_eq!(select_index(3, 4), None);
    assert_eq!(baud_choice(1), 115200);
    assert_eq!(baud_choice(2), 3000000);
    assert_eq!(baud_choice(921600), 921600);
}

#[test]
fn raised_error_keeps_message() {
    let e = RaisedError::new("path to dir");
    assert_eq!(e.message(), "path to dir");
}
