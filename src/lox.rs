//! The interpreter's session state across runs: scanning each piece of source
//! and remembering whether any of them had an error.

use vstd::prelude::*;
use crate::scanner::{ScanError, Scanner, scan_errors_from, scan_spec};
use crate::text::graphemes_of;
use crate::token::{AnnotatedToken, models};

verus! {

/// One interpreter session.
pub struct Lox {
    has_error: bool,
}

impl Lox {
    /// Whether any run so far reported an error.
    pub closed spec fn error_flag(&self) -> bool {
        self.has_error
    }

    pub fn new() -> (r: Lox)
        ensures
            !r.error_flag(),
    {
        Lox { has_error: false }
    }

    /// Scans `code`, returns its tokens and the lexical errors reported, and
    /// records whether there was any.
    pub fn run(&mut self, code: &str) -> (r: (Vec<AnnotatedToken>, Vec<ScanError>))
        ensures
            graphemes_of(code@).len() < usize::MAX ==> {
                &&& models(r.0@) == scan_spec(graphemes_of(code@)).0
                &&& r.1@ == scan_errors_from(graphemes_of(code@), 0, 1)
                &&& final(self).error_flag() == (old(self).error_flag() || scan_spec(graphemes_of(code@)).1)
            },
            graphemes_of(code@).len() >= usize::MAX ==> final(self).error_flag(),
    {
        let mut scanner = Scanner::new(code);
        scanner.scan_tokens();
        if scanner.has_error() {
            self.has_error = true;
        }
        scanner.into_parts()
    }

    pub fn has_error(&self) -> (r: bool)
        ensures
            r == self.error_flag(),
    {
        self.has_error
    }
}

} // verus!
