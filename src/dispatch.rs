//! Turning a request into what is to be sent, and to which printer.

use crate::cli::{Args, Commands, FTPCommands};
use crate::config::{names_of, position_of, Cfg};
use crate::framer::Mode;
use crate::sgd::{views, SGDCommands};
use vstd::prelude::*;

verus! {

/// What a request comes to.
pub enum Plan {
    /// Send the file at `path`, reading the reply in `mode`.
    SendFile { path: String, mode: Mode },
    /// Send `data` as print data, `count` times.
    SendData { data: String, count: i32 },
    /// Send a set/get/do command.
    Sgd { command: SGDCommands },
    /// Upload the file `name` over FTP.
    FtpPut { name: String },
    /// List the configured styles.
    ListStyles,
    /// List the configured printers.
    ListPrinters,
}

/// A plan, with the printer and the style that it uses (as indices into the
/// configuration's lists).
pub struct Dispatch {
    pub printer: usize,
    pub style: usize,
    pub plan: Plan,
}

/// Why a request cannot be carried out.
#[derive(PartialEq, Eq, Debug, Clone, Copy, Structural)]
pub enum PlanError {
    /// No style has the name asked for.
    UnknownStyle,
    /// No printer has the name asked for.
    UnknownPrinter,
    /// The message has so many lines that their positions leave `i32`.
    LabelTooTall,
}

/// Whether `i` is the index of the first entry named `name`.
pub open spec fn is_first_named<T>(entries: Seq<(String, T)>, name: Seq<char>, i: int) -> bool {
    &&& 0 <= i < entries.len()
    &&& entries[i].0@ == name
    &&& forall|j: int| 0 <= j < i ==> #[trigger] entries[j].0@ != name
}

/// Whether `p` carries out `cmd`, with `style` for messages.
pub open spec fn plan_matches(cmd: Commands, style: crate::zpl::MessageStyle, p: Plan) -> bool {
    match cmd {
        Commands::File { name } => p matches Plan::SendFile { path, .. } && path@ == name@,
        Commands::Message { msg, count } => p matches Plan::SendData { data, count: c } && c == count
            && data@ == style.spec_message(views(msg@)),
        Commands::Raw { msg, count } => p matches Plan::SendData { data, count: c } && c == count
            && data@ == msg@,
        Commands::Sgd { command } => p matches Plan::Sgd { command: c } && c == command,
        Commands::Ftp { command: FTPCommands::Put { name } } => p matches Plan::FtpPut { name: n }
            && n@ == name@,
        Commands::Styles => p is ListStyles,
        Commands::Printers => p is ListPrinters,
    }
}

/// The number of lines of a message command (none for other commands).
pub open spec fn message_lines(cmd: Commands) -> nat {
    match cmd {
        Commands::Message { msg, .. } => msg@.len(),
        _ => 0,
    }
}

/// Relies on `Path::extension`: the extension of the file name at the end
/// of `path`, if it has one. What counts as a separator depends on the
/// platform, so nothing is stated of the result.
#[verifier::external_body]
fn path_extension(path: &str) -> Option<String> {
    match std::path::Path::new(path).extension() {
        Some(e) => Some(e.to_string_lossy().into_owned()),
        None => None,
    }
}

/// How the reply to a file is read, given the file's extension: settings
/// files (`nrd`) answer like commands; anything else is print data.
pub fn mode_for_extension(ext: &Option<String>) -> (r: Mode)
    ensures
        r == (if ext matches Some(e) && e@ == "nrd"@ {
            Mode::SGD
        } else {
            Mode::Print
        }),
{
    match ext {
        Some(e) => {
            let nrd = "nrd".to_owned();
            if *e == nrd {
                Mode::SGD
            } else {
                Mode::Print
            }
        },
        None => Mode::Print,
    }
}

/// How the reply to the file at `name` is read.
pub fn file_mode(name: &str) -> Mode {
    let ext = path_extension(name);
    mode_for_extension(&ext)
}

/// What `args` comes to under `cfg`. The style is looked up first, then the
/// printer, as every request names both.
pub fn plan(args: Args, cfg: &Cfg) -> (r: Result<Dispatch, PlanError>)
    ensures
        r == Err::<Dispatch, PlanError>(PlanError::UnknownStyle) <==> !names_of(cfg.style@).contains(
            args.style@,
        ),
        r == Err::<Dispatch, PlanError>(PlanError::UnknownPrinter) <==> names_of(
            cfg.style@,
        ).contains(args.style@) && !names_of(cfg.printer@).contains(args.printer@),
        forall|s: int|
            is_first_named(cfg.style@, args.style@, s) ==> ((r == Err::<Dispatch, PlanError>(
                PlanError::LabelTooTall,
            )) <==> (names_of(cfg.printer@).contains(args.printer@) && args.command is Message
                && !(#[trigger] cfg.style@[s]).1.fits(message_lines(args.command)))),
        r matches Ok(d) ==> is_first_named(cfg.printer@, args.printer@, d.printer as int)
            && is_first_named(cfg.style@, args.style@, d.style as int) && plan_matches(
            args.command,
            cfg.style@[d.style as int].1,
            d.plan,
        ),
        cfg.wf() ==> (r matches Ok(d) ==> (forall|i: int|
            0 <= i < cfg.printer@.len() && (#[trigger] cfg.printer@[i]).0@ == args.printer@ ==> i
                == d.printer) && (forall|i: int|
            0 <= i < cfg.style@.len() && (#[trigger] cfg.style@[i]).0@ == args.style@ ==> i
                == d.style)),
{
    let s = position_of(&cfg.style, &args.style);
    let s = match s {
        Some(s) => s,
        None => {
            proof {
                assert forall|i: int| 0 <= i < names_of(cfg.style@).len() implies names_of(
                    cfg.style@,
                )[i] != args.style@ by {
                    assert(cfg.style@[i].0@ != args.style@);
                }
            }
            return Err(PlanError::UnknownStyle);
        },
    };
    proof {
        assert(names_of(cfg.style@)[s as int] == args.style@);
    }
    let p = position_of(&cfg.printer, &args.printer);
    let p = match p {
        Some(p) => p,
        None => {
            proof {
                assert forall|i: int| 0 <= i < names_of(cfg.printer@).len() implies names_of(
                    cfg.printer@,
                )[i] != args.printer@ by {
                    assert(cfg.printer@[i].0@ != args.printer@);
                }
            }
            return Err(PlanError::UnknownPrinter);
        },
    };
    proof {
        assert(names_of(cfg.printer@)[p as int] == args.printer@);
        assert forall|t: int| is_first_named(cfg.style@, args.style@, t) implies t == s by {
            if t < s {
                assert(cfg.style@[t].0@ != args.style@);
            } else if t > s {
                assert(cfg.style@[s as int].0@ != args.style@);
            }
        }
    }
    proof {
        if cfg.wf() {
            assert forall|i: int|
                0 <= i < cfg.printer@.len() && (#[trigger] cfg.printer@[i]).0@ == args.printer@
                    implies i == p by {
                if i != p {
                    assert(cfg.printer@[i].0@ != cfg.printer@[p as int].0@);
                }
            }
            assert forall|i: int|
                0 <= i < cfg.style@.len() && (#[trigger] cfg.style@[i]).0@ == args.style@ implies i
                    == s by {
                if i != s {
                    assert(cfg.style@[i].0@ != cfg.style@[s as int].0@);
                }
            }
        }
    }
    let plan = match args.command {
        Commands::File { name } => {
            let mode = file_mode(name.as_str());
            Plan::SendFile { path: name, mode }
        },
        Commands::Message { msg, count } => {
            let style = &cfg.style[s].1;
            if !style.layout_fits(msg.len()) {
                return Err(PlanError::LabelTooTall);
            }
            let style = style.duplicate();
            proof {
                assert(style.step() == cfg.style@[s as int].1.step());
            }
            let ghost lines = views(msg@);
            let data = style.create_zpl_message(msg);
            proof {
                assert(data@ =~= cfg.style@[s as int].1.spec_message(lines));
            }
            Plan::SendData { data, count }
        },
        Commands::Raw { msg, count } => Plan::SendData { data: msg, count },
        Commands::Sgd { command } => Plan::Sgd { command },
        Commands::Ftp { command } => match command {
            FTPCommands::Put { name } => Plan::FtpPut { name },
        },
        Commands::Styles => Plan::ListStyles,
        Commands::Printers => Plan::ListPrinters,
    };
    Ok(Dispatch { printer: p, style: s, plan })
}

} // verus!
