//! The configuration value controlling the codec: a delimiter family and a
//! strict-mode flag, built from loosely-typed caller input after validation.

use vstd::prelude::*;
use crate::errors::ExceptionKind;
use crate::numtext::str_eq;
use crate::errors::ToonException;

verus! {

/// The token naming the comma delimiter.
pub const COMMA: &'static str = "comma";

/// The token naming the tab delimiter.
pub const TAB: &'static str = "tab";

/// The token naming the pipe delimiter.
pub const PIPE: &'static str = "pipe";

/// The delimiter family used between encoded array and row values.
#[derive(Debug, Clone, Copy, PartialEq, Eq, Hash, Structural)]
pub enum Delimiter {
    Comma,
    Tab,
    Pipe,
}

/// Options for encoding and decoding: the delimiter (default comma) and the
/// strict-mode flag (default off).
#[derive(Debug, Clone, Copy, PartialEq, Eq, Hash, Structural)]
pub struct Options {
    pub delimiter: Delimiter,
    pub strict: bool,
}

/// The token naming a delimiter.
pub open spec fn delim_token(d: Delimiter) -> Seq<char> {
    match d {
        Delimiter::Comma => "comma"@,
        Delimiter::Tab => "tab"@,
        Delimiter::Pipe => "pipe"@,
    }
}

/// The delimiter named by a token, if any.
pub open spec fn spec_parse_delimiter(token: Seq<char>) -> Option<Delimiter> {
    if token == "comma"@ {
        Some(Delimiter::Comma)
    } else if token == "tab"@ {
        Some(Delimiter::Tab)
    } else if token == "pipe"@ {
        Some(Delimiter::Pipe)
    } else {
        None
    }
}

/// The message rejecting a delimiter token, naming the token and the
/// accepted set.
pub open spec fn invalid_delimiter_msg(token: Seq<char>) -> Seq<char> {
    "Invalid delimiter '"@ + token + "'. Must be 'comma', 'tab', or 'pipe'"@
}

/// The view of an optional token.
pub open spec fn opt_str_view(s: Option<&str>) -> Option<Seq<char>> {
    match s {
        Some(t) => Some(t@),
        None => None,
    }
}

/// The options built from loose parameters: an absent delimiter means
/// comma, an absent strict flag means off, and an unrecognized delimiter
/// token is rejected with a message naming it.
pub open spec fn spec_build_options(delimiter: Option<Seq<char>>, strict: Option<bool>) -> Result<
    Options,
    Seq<char>,
> {
    let s = match strict {
        Some(b) => b,
        None => false,
    };
    match delimiter {
        Some(token) => match spec_parse_delimiter(token) {
            Some(d) => Ok(Options { delimiter: d, strict: s }),
            None => Err(invalid_delimiter_msg(token)),
        },
        None => Ok(Options { delimiter: Delimiter::Comma, strict: s }),
    }
}

/// Parse a delimiter token.
pub fn parse_delimiter(token: &str) -> (r: Option<Delimiter>)
    ensures
        r == spec_parse_delimiter(token@),
{
    if str_eq(token, "comma") {
        Some(Delimiter::Comma)
    } else if str_eq(token, "tab") {
        Some(Delimiter::Tab)
    } else if str_eq(token, "pipe") {
        Some(Delimiter::Pipe)
    } else {
        None
    }
}

fn invalid_delimiter_error(token: &str) -> (r: ToonException)
    ensures
        r.kind == ExceptionKind::Value,
        r.message@ == invalid_delimiter_msg(token@),
{
    let mut m = String::from_str("Invalid delimiter '");
    m.append(token);
    m.append("'. Must be 'comma', 'tab', or 'pipe'");
    ToonException { kind: ExceptionKind::Value, message: m }
}

/// Build options from loose parameters, validating the delimiter token.
pub fn build_options(delimiter: Option<&str>, strict: Option<bool>) -> (r: Result<
    Options,
    ToonException,
>)
    ensures
        match spec_build_options(opt_str_view(delimiter), strict) {
            Ok(o) => r matches Ok(ro) && ro == o,
            Err(m) => r matches Err(e) && e.kind == ExceptionKind::Value && e.message@ == m,
        },
{
    let s = match strict {
        Some(b) => b,
        None => false,
    };
    match delimiter {
        Some(token) => match parse_delimiter(token) {
            Some(d) => Ok(Options { delimiter: d, strict: s }),
            None => Err(invalid_delimiter_error(token)),
        },
        None => Ok(Options { delimiter: Delimiter::Comma, strict: s }),
    }
}

/// The textual representation of an options value.
pub open spec fn spec_options_repr(o: Options) -> Seq<char> {
    "Options(delimiter='"@ + delim_token(o.delimiter) + "', strict="@ + (
    if o.strict {
        "true"@
    } else {
        "false"@
    }) + ")"@
}

/// The stable hash of an options value: a function of the two fields alone,
/// distinct for each of the six possible values.
pub open spec fn spec_options_hash(o: Options) -> int {
    (match o.delimiter {
        Delimiter::Comma => 0int,
        Delimiter::Tab => 1int,
        Delimiter::Pipe => 2int,
    }) * 2 + (if o.strict {
        1int
    } else {
        0int
    })
}

impl Options {
    /// Build an options value, validating the delimiter token.
    pub fn new(delimiter: Option<&str>, strict: Option<bool>) -> (r: Result<Self, ToonException>)
        ensures
            match spec_build_options(opt_str_view(delimiter), strict) {
                Ok(o) => r matches Ok(ro) && ro == o,
                Err(m) => r matches Err(e) && e.kind == ExceptionKind::Value && e.message@ == m,
            },
    {
        build_options(delimiter, strict)
    }

    /// The token naming this value's delimiter.
    pub fn delimiter(&self) -> (r: &str)
        ensures
            r@ == delim_token(self.delimiter),
    {
        match self.delimiter {
            Delimiter::Comma => "comma",
            Delimiter::Tab => "tab",
            Delimiter::Pipe => "pipe",
        }
    }

    /// Replace the delimiter, validating the token; an unrecognized token is
    /// rejected and leaves the value unchanged.
    pub fn set_delimiter(&mut self, token: &str) -> (r: Result<(), ToonException>)
        ensures
            match spec_parse_delimiter(token@) {
                Some(d) => r matches Ok(())
                    && *final(self) == (Options { delimiter: d, strict: old(self).strict }),
                None => r matches Err(e) && e.kind == ExceptionKind::Value && e.message@
                    == invalid_delimiter_msg(token@) && *final(self) == *old(self),
            },
    {
        match parse_delimiter(token) {
            Some(d) => {
                self.delimiter = d;
                Ok(())
            },
            None => Err(invalid_delimiter_error(token)),
        }
    }

    /// The strict-mode flag.
    pub fn strict(&self) -> (r: bool)
        ensures
            r == self.strict,
    {
        self.strict
    }

    /// Replace the strict-mode flag.
    pub fn set_strict(&mut self, strict: bool)
        ensures
            *final(self) == (Options { delimiter: old(self).delimiter, strict: strict }),
    {
        self.strict = strict;
    }

    /// The textual representation, of the form
    /// `Options(delimiter='<token>', strict=<bool>)`.
    pub fn __repr__(&self) -> (r: String)
        ensures
            r@ == spec_options_repr(*self),
    {
        let mut m = String::from_str("Options(delimiter='");
        m.append(self.delimiter());
        m.append("', strict=");
        m.append(if self.strict {
            "true"
        } else {
            "false"
        });
        m.append(")");
        proof {
            assert(m@ =~= spec_options_repr(*self));
        }
        m
    }

    /// The textual representation; the same as `__repr__`.
    pub fn __str__(&self) -> (r: String)
        ensures
            r@ == spec_options_repr(*self),
    {
        self.__repr__()
    }

    /// Equality derived from the two fields.
    pub fn __eq__(&self, other: &Options) -> (r: bool)
        ensures
            r == (*self == *other),
    {
        *self == *other
    }

    /// A stable hash derived from the two fields.
    pub fn __hash__(&self) -> (r: u64)
        ensures
            r == spec_options_hash(*self),
    {
        let d: u64 = match self.delimiter {
            Delimiter::Comma => 0,
            Delimiter::Tab => 1,
            Delimiter::Pipe => 2,
        };
        d * 2 + (if self.strict {
            1
        } else {
            0
        })
    }
}

impl Default for Options {
    /// The default options: comma delimiter, strict mode off.
    fn default() -> (r: Self)
        ensures
            r == (Options { delimiter: Delimiter::Comma, strict: false }),
    {
        Options { delimiter: Delimiter::Comma, strict: false }
    }
}

/// Two options values have equal hashes exactly when they are equal: the
/// hash is derived from, and distinguishes, both fields.
pub proof fn lemma_options_hash_injective(a: Options, b: Options)
    ensures
        (spec_options_hash(a) == spec_options_hash(b)) <==> a == b,
{
}

} // verus!
