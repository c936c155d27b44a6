use zebrasend::framer::{Event, Mode};
use zebrasend::jetdirect::{
    Action, Input, Jetdirect, Phase, SendError, Session, Transport, PRINT_TIMEOUT_NANOS,
    SET_TIMEOUT_NANOS,
};
use zebrasend::sgd::SGDCommands;

/// A printer that answers each action from a script, counting connections.
struct Mock {
    connect_ok: bool,
    write_ok: bool,
    events: Vec<Event>,
    opened: usize,
    closed: usize,
    written: Vec<u8>,
    shown: Vec<u8>,
    timeouts: Vec<u64>,
}

impl Mock {
    fn new(connect_ok: bool, write_ok: bool, events: Vec<Event>) -> Mock {
        Mock {
            connect_ok,
            write_ok,
            events,
            opened: 0,
            closed: 0,
            written: Vec::new(),
            shown: Vec::new(),
            timeouts: Vec::new(),
        }
    }

    fn run(&mut self, mut session: Session) -> Result<String, SendError> {
        let mut input = Input::Start;
        loop {
            assert!(session.accepts(&input));
            let step = session.step(input);
            self.shown.extend_from_slice(&step.show);
            input = match step.action {
                Action::Connect { .. } => {
                    self.opened += 1;
                    if self.connect_ok {
                        Input::Connected
                    } else {
                        Input::ConnectFailed
                    }
                }
                Action::Write(bytes) => {
                    self.written = bytes;
                    if self.write_ok {
                        Input::Wrote
                    } else {
                        Input::WriteFailed
                    }
                }
                Action::Read { timeout_nanos } => {
                    self.timeouts.push(timeout_nanos);
                    if self.events.is_empty() {
                        Input::Received(Event::TimedOut)
                    } else {
                        Input::Received(self.events.remove(0))
                    }
                }
                Action::Disconnect => {
                    self.closed += 1;
                    Input::Disconnected
                }
                Action::Finish(result) => {
                    assert_eq!(session.get_phase(), Phase::Finished);
                    return result;
                }
            };
        }
    }
}

fn printer() -> Jetdirect {
    Jetdirect::new("192.0.2.7".to_string(), 9100)
}

#[test]
fn one_connection_for_each_command_kind() {
    let cmds = vec![
        SGDCommands::Get { cmd: vec!["ip.addr".to_string()] },
        SGDCommands::Setvar { cmd: vec!["a".to_string(), "1".to_string()] },
        SGDCommands::Do { cmd: vec!["device.reset".to_string()] },
    ];
    for cmd in cmds {
        let mut mock = Mock::new(true, true, vec![Event::Data(b"\"x\"".to_vec())]);
        let r = mock.run(printer().sgd_session(&cmd, Transport::Telnet));
        assert_eq!(r, Ok("\"x\"".to_string()));
        assert_eq!((mock.opened, mock.closed), (1, 1));
        assert_eq!(mock.written, cmd.build_cmd().into_bytes());
    }
    let mut mock = Mock::new(true, true, vec![Event::Data(b"^XA^XZ".to_vec())]);
    let r = mock.run(printer().data_session(&"^XA^XZ".to_string(), Mode::Print));
    assert_eq!(r, Ok(String::new()));
    assert_eq!((mock.opened, mock.closed), (1, 1));
}

#[test]
fn failed_connection_is_not_closed() {
    let cmd = SGDCommands::Get { cmd: vec!["ip.addr".to_string()] };
    let mut mock = Mock::new(false, true, vec![]);
    let r = mock.run(printer().sgd_session(&cmd, Transport::Raw));
    assert_eq!(r, Err(SendError::Connection));
    assert_eq!((mock.opened, mock.closed), (1, 0));
}

#[test]
fn failed_write_closes_once() {
    let cmd = SGDCommands::Get { cmd: vec!["ip.addr".to_string()] };
    let mut mock = Mock::new(true, false, vec![]);
    let r = mock.run(printer().sgd_session(&cmd, Transport::Telnet));
    assert_eq!(r, Err(SendError::Write));
    assert_eq!((mock.opened, mock.closed), (1, 1));
}

#[test]
fn failed_read_closes_once() {
    let cmd = SGDCommands::Get { cmd: vec!["ip.addr".to_string()] };
    let mut mock = Mock::new(true, true, vec![Event::Data(b"\"1".to_vec()), Event::ReadFailed]);
    let r = mock.run(printer().sgd_session(&cmd, Transport::Telnet));
    assert_eq!(r, Err(SendError::Read));
    assert_eq!((mock.opened, mock.closed), (1, 1));
}

#[test]
fn invalid_reply_is_an_encoding_error() {
    let cmd = SGDCommands::Get { cmd: vec!["ip.addr".to_string()] };
    let mut mock = Mock::new(true, true, vec![Event::Data(vec![0x22, 0xff, 0x22])]);
    let r = mock.run(printer().sgd_session(&cmd, Transport::Telnet));
    assert_eq!(r, Err(SendError::Encoding));
    assert_eq!((mock.opened, mock.closed), (1, 1));
}

#[test]
fn set_ends_on_quick_timeout_without_reply() {
    let cmd = SGDCommands::Setvar {
        cmd: vec!["ezpl.print_width".to_string(), "200".to_string()],
    };
    let mut mock = Mock::new(true, true, vec![]);
    let r = mock.run(printer().sgd_session(&cmd, Transport::Telnet));
    assert_eq!(r, Ok(String::new()));
    assert_eq!(mock.timeouts, vec![SET_TIMEOUT_NANOS]);
    assert_eq!(mock.written, b"! U1 setvar \"ezpl.print_width\" \"200\" \r".to_vec());
}

#[test]
fn chunks_are_shown_in_arrival_order() {
    let cmd = SGDCommands::Get { cmd: vec!["file.dir".to_string()] };
    let mut mock = Mock::new(
        true,
        true,
        vec![Event::Data(b"\"a\n".to_vec()), Event::Data(b"b\"".to_vec())],
    );
    let r = mock.run(printer().sgd_session(&cmd, Transport::Telnet));
    assert_eq!(r, Ok("\"a\nb\"".to_string()));
    assert_eq!(mock.shown, b"\"a\nb\"".to_vec());
    assert_eq!(mock.timeouts.len(), 3);
}

#[test]
fn print_data_is_not_shown() {
    let mut mock = Mock::new(true, true, vec![Event::Data(b"x".to_vec()), Event::Closed]);
    let r = mock.run(printer().data_session(&"^XA^XZ".to_string(), Mode::Print));
    assert_eq!(r, Ok(String::new()));
    assert!(mock.shown.is_empty());
    assert_eq!(mock.timeouts, vec![PRINT_TIMEOUT_NANOS, PRINT_TIMEOUT_NANOS]);
    assert_eq!(mock.written, b"^XA^XZ".to_vec());
}

#[test]
fn connect_action_names_the_printer() {
    let p = printer();
    assert_eq!(p.addr, "192.0.2.7");
    assert_eq!(p.get_port(), 9100);
    let cmd = SGDCommands::Do { cmd: vec![] };
    let mut s = p.sgd_session(&cmd, Transport::Raw);
    assert_eq!(s.get_mode(), Mode::SGD);
    assert!(!s.accepts(&Input::Wrote));
    match s.step(Input::Start).action {
        Action::Connect { addr, port, transport } => {
            assert_eq!(addr, "192.0.2.7");
            assert_eq!(port, 9100);
            assert_eq!(transport, Transport::Raw);
        }
        other => panic!("unexpected action {:?}", other),
    }
    assert_eq!(s.get_phase(), Phase::Connecting);
}
