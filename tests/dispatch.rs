use zebrasend::cli::{Args, Commands, FTPCommands};
use zebrasend::config::{position_of, Cfg, ConfigError, Printer};
use zebrasend::dispatch::{file_mode, mode_for_extension, plan, Plan, PlanError};
use zebrasend::framer::Mode;
use zebrasend::sgd::SGDCommands;
use zebrasend::zpl::MessageStyle;

fn cfg() -> Cfg {
    let style = MessageStyle {
        font_size: 35,
        font_width: 0,
        invert: false,
        font: "A".to_string(),
        line_padding: 0,
        start_point: 10,
    };
    let tall = MessageStyle { start_point: i32::MAX, ..style.clone() };
    Cfg {
        printer: vec![
            ("office".to_string(), Printer { ip: "192.0.2.1".to_string(), port: 9100 }),
            ("default".to_string(), Printer { ip: "192.0.2.2".to_string(), port: 6101 }),
        ],
        style: vec![("default".to_string(), style), ("tall".to_string(), tall)],
    }
}

fn args(command: Commands, printer: &str, style: &str) -> Args {
    Args {
        command,
        config_file: None,
        printer: printer.to_string(),
        style: style.to_string(),
    }
}

#[test]
fn default_port_is_raw_port() {
    assert_eq!(Cfg::default_port(), 9100);
}

#[test]
fn unknown_style_is_reported_first() {
    let r = plan(args(Commands::Styles, "nowhere", "fancy"), &cfg());
    assert_eq!(r.err(), Some(PlanError::UnknownStyle));
}

#[test]
fn unknown_printer() {
    let r = plan(args(Commands::Printers, "nowhere", "default"), &cfg());
    assert_eq!(r.err(), Some(PlanError::UnknownPrinter));
}

#[test]
fn select_by_names() {
    let c = cfg();
    assert_eq!(c.select(&"default".to_string(), &"tall".to_string()), Ok((1, 1)));
    assert_eq!(
        c.select(&"x".to_string(), &"tall".to_string()),
        Err(ConfigError::UnknownPrinter)
    );
    assert_eq!(
        c.select(&"office".to_string(), &"y".to_string()),
        Err(ConfigError::UnknownStyle)
    );
    assert_eq!(position_of(&c.printer, &"office".to_string()), Some(0));
}

#[test]
fn message_becomes_label_markup() {
    let cmd = Commands::Message { msg: vec!["hi".to_string(), "there".to_string()], count: 2 };
    let d = plan(args(cmd, "default", "default"), &cfg()).ok().unwrap();
    assert_eq!((d.printer, d.style), (1, 0));
    match d.plan {
        Plan::SendData { data, count } => {
            assert_eq!(data, "^XA^CFA,35,0^PON^FO10,10^FDhi^FS^FO10,45^FDthere^FS^XZ");
            assert_eq!(count, 2);
        }
        _ => panic!("expected print data"),
    }
}

#[test]
fn message_too_tall_is_refused() {
    let cmd = Commands::Message { msg: vec!["a".to_string(), "b".to_string()], count: 1 };
    let r = plan(args(cmd, "office", "tall"), &cfg());
    assert_eq!(r.err(), Some(PlanError::LabelTooTall));
}

#[test]
fn raw_sgd_and_ftp_pass_through() {
    let d = plan(args(Commands::Raw { msg: "^XA^XZ".to_string(), count: 3 }, "office", "default"), &cfg())
        .ok()
        .unwrap();
    assert!(matches!(d.plan, Plan::SendData { ref data, count: 3 } if data == "^XA^XZ"));
    let cmd = SGDCommands::Get { cmd: vec!["ip.addr".to_string()] };
    let d = plan(args(Commands::Sgd { command: cmd.clone() }, "office", "default"), &cfg())
        .ok()
        .unwrap();
    assert!(matches!(d.plan, Plan::Sgd { ref command } if *command == cmd));
    let put = Commands::Ftp { command: FTPCommands::Put { name: "label.zpl".to_string() } };
    let d = plan(args(put, "office", "default"), &cfg()).ok().unwrap();
    assert!(matches!(d.plan, Plan::FtpPut { ref name } if name == "label.zpl"));
    let d = plan(args(Commands::Styles, "office", "default"), &cfg()).ok().unwrap();
    assert!(matches!(d.plan, Plan::ListStyles));
}

#[test]
fn file_mode_by_extension() {
    assert_eq!(file_mode("settings.nrd"), Mode::SGD);
    assert_eq!(file_mode("dir.v2/label.zpl"), Mode::Print);
    assert_eq!(file_mode("noext"), Mode::Print);
    assert_eq!(mode_for_extension(&Some("nrd".to_string())), Mode::SGD);
    assert_eq!(mode_for_extension(&Some("NRD".to_string())), Mode::Print);
    assert_eq!(mode_for_extension(&None), Mode::Print);
    let d = plan(args(Commands::File { name: "x.nrd".to_string() }, "office", "default"), &cfg())
        .ok()
        .unwrap();
    assert!(matches!(d.plan, Plan::SendFile { ref path, mode: Mode::SGD } if path == "x.nrd"));
}

#[test]
fn repeated_name_takes_first_entry() {
    let mut c = cfg();
    c.printer.push(("office".to_string(), Printer { ip: "192.0.2.9".to_string(), port: 1 }));
    let d = plan(args(Commands::Printers, "office", "default"), &c).ok().unwrap();
    assert_eq!(d.printer, 0);
}
