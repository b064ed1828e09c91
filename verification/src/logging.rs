//! Console logging: each function builds the exact line to print, so the
//! caller (who owns the console) only writes it out. The verbosity flag is
//! held by the `Logging` value itself and is set before use; when not
//! verbose, the source-location marker that [`crate::messages::f`] prepends
//! is stripped from the message again.

use vstd::prelude::*;
use vstd::string::StringExecFns;

verus! {

/// What `regex::Regex::replace` leaves of a message once its first
/// `(<path> L<line>)` location marker is replaced by nothing.
pub uninterp spec fn strip_location_of(s: Seq<char>) -> Seq<char>;

/// Relies on `regex::Regex::replace` (on a `Regex::new` of a fixed, valid
/// pattern, which cannot fail): replacing the first location marker with
/// nothing depends on the message text alone.
#[verifier::external_body]
fn strip_location(message: &str) -> (r: String)
    ensures
        r@ == strip_location_of(message@),
{
    let re = regex::Regex::new(r"\((.*) L[0-9]+\)").unwrap();
    re.replace(message, "").to_string()
}

/// Logging configuration and line formatting.
///
/// `info` and `error` always produce a line; `debug` only in verbose mode.
/// In verbose mode the message keeps its location marker, otherwise the
/// marker is stripped.
pub struct Logging {
    pub verbose: bool,
}

impl Logging {
    /// A logger in its default, non-verbose configuration.
    pub fn new() -> (l: Logging)
        ensures
            !l.verbose,
    {
        Logging { verbose: false }
    }

    /// Choose whether lines keep their source-location marker.
    pub fn set_verbose(&mut self, verbose: bool)
        ensures
            final(self).verbose == verbose,
    {
        self.verbose = verbose;
    }

    /// The INFO line for `message`.
    pub fn info(&self, message: String) -> (r: String)
        ensures
            self.verbose ==> r@ == "\x1b[32mINFO:\x1b[0m  "@ + message@,
            !self.verbose ==> r@ == "\x1b[32mINFO:\x1b[0m "@ + strip_location_of(message@),
    {
        if !self.verbose {
            let mut r = String::from_str("\x1b[32mINFO:\x1b[0m ");
            let stripped = strip_location(message.as_str());
            r.append(stripped.as_str());
            r
        } else {
            let mut r = String::from_str("\x1b[32mINFO:\x1b[0m  ");
            r.append(message.as_str());
            r
        }
    }

    /// The ERROR line for `message`.
    pub fn error(&self, message: String) -> (r: String)
        ensures
            self.verbose ==> r@ == "\x1b[31mERROR:\x1b[0m "@ + message@,
            !self.verbose ==> r@ == "\x1b[31mERROR:\x1b[0m "@ + strip_location_of(message@),
    {
        if !self.verbose {
            let mut r = String::from_str("\x1b[31mERROR:\x1b[0m ");
            let stripped = strip_location(message.as_str());
            r.append(stripped.as_str());
            r
        } else {
            let mut r = String::from_str("\x1b[31mERROR:\x1b[0m ");
            r.append(message.as_str());
            r
        }
    }

    /// The DEBUG line for `message`, or nothing when not verbose.
    pub fn debug(&self, message: String) -> (r: Option<String>)
        ensures
            self.verbose ==> (r matches Some(line) && line@ == "\x1b[34mDEBUG:\x1b[0m "@
                + message@),
            !self.verbose ==> r is None,
    {
        if !self.verbose {
            None
        } else {
            let mut r = String::from_str("\x1b[34mDEBUG:\x1b[0m ");
            r.append(message.as_str());
            Some(r)
        }
    }
}

} // verus!
