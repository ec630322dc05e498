//! Operator-facing log lines. The interactive prompt widgets live outside the
//! library; only the colored status logging is needed by the supervision core.
use std::io::Write;
use vstd::prelude::*;

verus! {

pub struct Terminal;

impl Terminal {
    /// Relies on std::io::stdout and termion's color codes: prints `message`
    /// on its own line behind a green `[+]` prefix.
    #[verifier::external_body]
    pub fn log(message: &str) {
        let mut out = std::io::stdout();
        let _ = writeln!(
            out,
            "{}[+] {}{}\r",
            termion::color::Fg(termion::color::Green),
            termion::color::Fg(termion::color::Reset),
            message,
        );
    }

    /// Relies on std::io::stderr and termion's color codes: prints `message`
    /// on its own line behind a red `[!]` prefix.
    #[verifier::external_body]
    pub fn log_error(message: &str) {
        let mut err = std::io::stderr();
        let _ = writeln!(
            err,
            "{}[!] {}{}\r",
            termion::color::Fg(termion::color::Red),
            termion::color::Fg(termion::color::Reset),
            message,
        );
    }
}

} // verus!
