//! Named printers and styles, as read from the configuration.

use crate::zpl::MessageStyle;
use vstd::prelude::*;

verus! {

/// The port of a printer that names none: the raw command port.
pub const DEFAULT_PORT: u16 = 9100;

/// Where a printer is reached.
#[derive(Clone)]
pub struct Printer {
    pub ip: String,
    pub port: u16,
}

/// The configured printers and styles, each under a name. A configuration
/// read from a file names each entry once (see `Cfg::wf`); where a name
/// stands twice anyway, lookups take its first entry.
pub struct Cfg {
    pub printer: Vec<(String, Printer)>,
    pub style: Vec<(String, MessageStyle)>,
}

/// Why a configuration cannot serve a request.
#[derive(PartialEq, Eq, Debug, Clone, Copy, Structural)]
pub enum ConfigError {
    /// No style has the name asked for.
    UnknownStyle,
    /// No printer has the name asked for.
    UnknownPrinter,
}

/// The names of a list of entries, in order.
pub open spec fn names_of<T>(entries: Seq<(String, T)>) -> Seq<Seq<char>> {
    entries.map_values(|e: (String, T)| e.0@)
}

/// Whether no name stands twice among `entries`.
pub open spec fn distinct_names<T>(entries: Seq<(String, T)>) -> bool {
    forall|i: int, j: int|
        0 <= i < entries.len() && 0 <= j < entries.len() && i != j ==> #[trigger] entries[i].0@
            != #[trigger] entries[j].0@
}

/// The index of the first entry named `name`, if there is one.
pub fn position_of<T>(entries: &Vec<(String, T)>, name: &String) -> (r: Option<usize>)
    ensures
        r is None <==> forall|i: int| 0 <= i < entries@.len() ==> #[trigger] entries@[i].0@ != name@,
        r matches Some(i) ==> i < entries@.len() && entries@[i as int].0@ == name@,
        r matches Some(i) ==> forall|j: int| 0 <= j < i ==> #[trigger] entries@[j].0@ != name@,
{
    let mut i: usize = 0;
    while i < entries.len()
        invariant
            i <= entries@.len(),
            forall|j: int| 0 <= j < i ==> #[trigger] entries@[j].0@ != name@,
        decreases entries.len() - i,
    {
        if entries[i].0 == *name {
            return Some(i);
        }
        i += 1;
    }
    None
}

impl Cfg {
    /// Each printer and each style has a name of its own.
    pub open spec fn wf(&self) -> bool {
        distinct_names(self.printer@) && distinct_names(self.style@)
    }

    /// The port of a printer that names none.
    pub fn default_port() -> (r: u16)
        ensures
            r == DEFAULT_PORT,
    {
        DEFAULT_PORT
    }

    /// The indices of the style and of the printer with these names. The
    /// style is looked up first.
    pub fn select(&self, printer: &String, style: &String) -> (r: Result<(usize, usize), ConfigError>)
        ensures
            r matches Ok((p, s)) ==> p < self.printer@.len() && self.printer@[p as int].0@ == printer@
                && s < self.style@.len() && self.style@[s as int].0@ == style@,
            r == Err::<(usize, usize), ConfigError>(ConfigError::UnknownStyle) <==> !names_of(
                self.style@,
            ).contains(style@),
            r == Err::<(usize, usize), ConfigError>(ConfigError::UnknownPrinter) <==> names_of(
                self.style@,
            ).contains(style@) && !names_of(self.printer@).contains(printer@),
    {
        let s = position_of(&self.style, style);
        proof {
            if s is None {
                assert forall|i: int| 0 <= i < names_of(self.style@).len() implies names_of(self.style@)[i] != style@ by {
                    assert(self.style@[i].0@ != style@);
                }
            } else {
                assert(names_of(self.style@)[s->Some_0 as int] == style@);
            }
        }
        let p = position_of(&self.printer, printer);
        proof {
            if p is None {
                assert forall|i: int| 0 <= i < names_of(self.printer@).len() implies names_of(self.printer@)[i] != printer@ by {
                    assert(self.printer@[i].0@ != printer@);
                }
            } else {
                assert(names_of(self.printer@)[p->Some_0 as int] == printer@);
            }
        }
        match s {
            None => Err(ConfigError::UnknownStyle),
            Some(s) => match p {
                None => Err(ConfigError::UnknownPrinter),
                Some(p) => Ok((p, s)),
            },
        }
    }
}

} // verus!
