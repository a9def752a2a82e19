//! Basic pre-made loggers for small, simple applications.
//!
//! The logger here panics the second there is a (non-inconvenience)
//! error. Printing to the console and panicking are left to the shell
//! around this crate; what is verified is the exact text of each line the
//! logger produces, and for which kinds of log it produces one at all.

use vstd::prelude::*;

use crate::colour::Colours;
use crate::colour::colour_tag;
use crate::colour::tag_text;
use crate::log::Log;
use crate::log::LogType;

verus! {

/// A verbose log line: the cyan-tagged origin, then the message in the
/// terminal's normal colour, ending with a colour reset.
pub open spec fn verbose_text(origin: Seq<char>, message: Seq<char>) -> Seq<char> {
    tag_text(Colours::CYAN@, origin) + Colours::NORMAL@ + message + Colours::NORMAL@
}

/// A labelled log line: the tagged origin, a coloured label such as
/// `Fatal: `, then the message in the normal colour, ending with a reset.
pub open spec fn labelled_text(
    colour: Seq<char>,
    origin: Seq<char>,
    label: Seq<char>,
    message: Seq<char>,
) -> Seq<char> {
    tag_text(colour, origin) + colour + label + Colours::NORMAL@ + message + Colours::NORMAL@
}

/// The default logger for just trying this crate out: it answers every
/// error by asking the process to panic.
pub struct PanicLogger;

impl PanicLogger {
    /// The line printed for a verbose log.
    pub fn verbose_line(log: &Log) -> (r: String)
        ensures
            r@ == verbose_text(log.origin@, log.message@),
    {
        let mut r = colour_tag(Colours::CYAN, log.origin);
        r.append(Colours::NORMAL);
        r.append(log.message);
        r.append(Colours::NORMAL);
        proof {
            assert(r@ =~= verbose_text(log.origin@, log.message@));
        }
        r
    }

    /// The line printed for a vital log, or nothing for a kind that is not
    /// vital: only an inconvenience is, and it is labelled in yellow.
    pub fn vital_line(log: &Log) -> (r: Option<String>)
        ensures
            match r {
                Some(s) => log.log_type is Inconvenience && s@ == labelled_text(
                    Colours::YELLOW@,
                    log.origin@,
                    "Inconvenience: "@,
                    log.message@,
                ),
                None => !(log.log_type is Inconvenience),
            },
    {
        match &log.log_type {
            LogType::Inconvenience => {
                let mut r = colour_tag(Colours::YELLOW, log.origin);
                r.append(Colours::YELLOW);
                r.append("Inconvenience: ");
                r.append(Colours::NORMAL);
                r.append(log.message);
                r.append(Colours::NORMAL);
                proof {
                    assert(r@ =~= labelled_text(
                        Colours::YELLOW@,
                        log.origin@,
                        "Inconvenience: "@,
                        log.message@,
                    ));
                }
                Some(r)
            },
            _ => None,
        }
    }

    /// The line printed for an error log, or nothing for a kind that is
    /// not an error: a fatal error or a failure, labelled in red.
    pub fn error_line(log: &Log) -> (r: Option<String>)
        ensures
            match r {
                Some(s) => (log.log_type is Fatal && s@ == labelled_text(
                    Colours::RED@,
                    log.origin@,
                    "Fatal: "@,
                    log.message@,
                )) || (log.log_type is Failure && s@ == labelled_text(
                    Colours::RED@,
                    log.origin@,
                    "Failure: "@,
                    log.message@,
                )),
                None => !(log.log_type is Fatal) && !(log.log_type is Failure),
            },
    {
        let label = match &log.log_type {
            LogType::Fatal => "Fatal: ",
            LogType::Failure => "Failure: ",
            _ => {
                return None;
            },
        };
        let mut r = colour_tag(Colours::RED, log.origin);
        r.append(Colours::RED);
        r.append(label);
        r.append(Colours::NORMAL);
        r.append(log.message);
        r.append(Colours::NORMAL);
        proof {
            assert(r@ =~= labelled_text(Colours::RED@, log.origin@, label@, log.message@));
        }
        Some(r)
    }
}

} // verus!
