//! The error taxonomy. Every error is fatal to the invocation that raised
//! it: there is no retry or partial-success path, since a missing or
//! misplaced artifact would silently corrupt the parent build.

use vstd::prelude::*;
use vstd::string::StringExecFns;

verus! {

/// A fatal failure of one build-and-relocate invocation.
#[derive(Debug)]
pub enum BuildError {
    /// A required configuration value (an environment key the parent build
    /// must supply) was absent.
    Configuration { key: String },
    /// The external build process exited non-zero or could not be started;
    /// `code` is its exit code when one was observed.
    BuildFailure { manifest: String, code: Option<i32> },
    /// No dependency-descriptor file was found in the expected output
    /// directory: the sub-build produced nothing where it was expected to.
    Discovery { dir: String },
    /// A descriptor file was unreadable, empty, not valid text, or its first
    /// line lacked the `:` separator after the output field.
    MalformedDescriptor { file: String },
    /// Creating the destination directory or moving the artifact failed.
    Io { source: String, destination: String },
}

/// The decimal digit `d` as a character.
pub open spec fn spec_digit(d: int) -> char {
    if d == 0 {
        '0'
    } else if d == 1 {
        '1'
    } else if d == 2 {
        '2'
    } else if d == 3 {
        '3'
    } else if d == 4 {
        '4'
    } else if d == 5 {
        '5'
    } else if d == 6 {
        '6'
    } else if d == 7 {
        '7'
    } else if d == 8 {
        '8'
    } else {
        '9'
    }
}

/// The decimal digits of `n`, most significant first.
pub open spec fn spec_nat_digits(n: nat) -> Seq<char>
    decreases n,
{
    if n < 10 {
        seq![spec_digit(n as int)]
    } else {
        spec_nat_digits(n / 10) + seq![spec_digit((n % 10) as int)]
    }
}

/// The decimal rendering of `n`, with a leading minus sign when negative.
pub open spec fn spec_int_chars(n: int) -> Seq<char> {
    if n < 0 {
        seq!['-'] + spec_nat_digits((-n) as nat)
    } else {
        spec_nat_digits(n as nat)
    }
}

fn digit_char(d: u32) -> (c: char)
    requires
        d < 10,
    ensures
        c == spec_digit(d as int),
{
    if d == 0 {
        '0'
    } else if d == 1 {
        '1'
    } else if d == 2 {
        '2'
    } else if d == 3 {
        '3'
    } else if d == 4 {
        '4'
    } else if d == 5 {
        '5'
    } else if d == 6 {
        '6'
    } else if d == 7 {
        '7'
    } else if d == 8 {
        '8'
    } else {
        '9'
    }
}

fn push_decimal(s: &mut String, n: u32)
    ensures
        final(s)@ == old(s)@ + spec_nat_digits(n as nat),
    decreases n,
{
    if n < 10 {
        s.push(digit_char(n));
        proof {
            assert(s@ =~= old(s)@ + spec_nat_digits(n as nat));
        }
    } else {
        proof {
            assert(n / 10 < n) by (nonlinear_arith)
                requires
                    n >= 10,
            ;
        }
        push_decimal(s, n / 10);
        s.push(digit_char(n % 10));
        proof {
            assert(s@ =~= old(s)@ + spec_nat_digits(n as nat));
        }
    }
}

/// Renders an exit code in decimal.
pub fn int_string(n: i32) -> (r: String)
    ensures
        r@ == spec_int_chars(n as int),
{
    let mut s = String::new();
    if n < 0 {
        s.push('-');
        let wide: i64 = -(n as i64);
        proof {
            assert(0 <= wide < 0x1_0000_0000);
        }
        let m: u32 = wide as u32;
        push_decimal(&mut s, m);
        proof {
            assert(s@ =~= spec_int_chars(n as int));
        }
    } else {
        push_decimal(&mut s, n as u32);
        proof {
            assert(s@ =~= spec_int_chars(n as int));
        }
    }
    s
}

/// The one-line message that describes an error to the parent build's user.
pub open spec fn spec_message(e: BuildError) -> Seq<char> {
    match e {
        BuildError::Configuration { key } => "missing required build configuration: "@ + key@,
        BuildError::BuildFailure { manifest, code } => match code {
            Some(c) => "error building target dep "@ + manifest@ + " (exit code "@
                + spec_int_chars(c as int) + ")"@,
            None => "error building target dep "@ + manifest@ + " (no exit status)"@,
        },
        BuildError::Discovery { dir } => "no dependency descriptor produced under "@ + dir@,
        BuildError::MalformedDescriptor { file } => "malformed dependency descriptor "@ + file@,
        BuildError::Io { source, destination } => "failed to move output "@ + source@ + " to "@
            + destination@,
    }
}

impl BuildError {
    /// The message the parent build step surfaces when it halts on this
    /// error: it names the failing path and the underlying cause.
    pub fn describe(&self) -> (r: String)
        ensures
            r@ == spec_message(*self),
    {
        match self {
            BuildError::Configuration { key } => "missing required build configuration: "
                .to_owned()
                .concat(key.as_str()),
            BuildError::BuildFailure { manifest, code } => {
                let head = "error building target dep ".to_owned().concat(manifest.as_str());
                match code {
                    Some(c) => {
                        let num = int_string(*c);
                        head.concat(" (exit code ").concat(num.as_str()).concat(")")
                    },
                    None => head.concat(" (no exit status)"),
                }
            },
            BuildError::Discovery { dir } => "no dependency descriptor produced under "
                .to_owned()
                .concat(dir.as_str()),
            BuildError::MalformedDescriptor { file } => "malformed dependency descriptor "
                .to_owned()
                .concat(file.as_str()),
            BuildError::Io { source, destination } => "failed to move output "
                .to_owned()
                .concat(source.as_str())
                .concat(" to ")
                .concat(destination.as_str()),
        }
    }
}

} // verus!
