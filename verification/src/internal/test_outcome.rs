//! The record of one failed assertion: a rendered description, an optional
//! custom message, and the code location the assertion was written at.

use vstd::prelude::*;
use vstd::string::StringExecFns;

verus! {

/// The character for one decimal digit.
pub open spec fn spec_digit(d: nat) -> char {
    if d == 0 {
        '0'
    } else if d == 1 {
        '1'
    } else if d == 2 {
        '2'
    } else if d == 3 {
        '3'
    } else if d == 4 {
        '4'
    } else if d == 5 {
        '5'
    } else if d == 6 {
        '6'
    } else if d == 7 {
        '7'
    } else if d == 8 {
        '8'
    } else {
        '9'
    }
}

/// The decimal digits of `n`, most significant first.
pub open spec fn spec_dec_digits(n: nat) -> Seq<char>
    decreases n,
{
    if n < 10 {
        seq![spec_digit(n)]
    } else {
        spec_dec_digits(n / 10) + seq![spec_digit(n % 10)]
    }
}

fn digit_str(d: u32) -> (r: &'static str)
    requires
        d < 10,
    ensures
        r@ == seq![spec_digit(d as nat)],
{
    if d == 0 {
        proof {
            reveal_strlit("0");
            assert("0"@ =~= seq![spec_digit(0)]);
        }
        "0"
    } else if d == 1 {
        proof {
            reveal_strlit("1");
            assert("1"@ =~= seq![spec_digit(1)]);
        }
        "1"
    } else if d == 2 {
        proof {
            reveal_strlit("2");
            assert("2"@ =~= seq![spec_digit(2)]);
        }
        "2"
    } else if d == 3 {
        proof {
            reveal_strlit("3");
            assert("3"@ =~= seq![spec_digit(3)]);
        }
        "3"
    } else if d == 4 {
        proof {
            reveal_strlit("4");
            assert("4"@ =~= seq![spec_digit(4)]);
        }
        "4"
    } else if d == 5 {
        proof {
            reveal_strlit("5");
            assert("5"@ =~= seq![spec_digit(5)]);
        }
        "5"
    } else if d == 6 {
        proof {
            reveal_strlit("6");
            assert("6"@ =~= seq![spec_digit(6)]);
        }
        "6"
    } else if d == 7 {
        proof {
            reveal_strlit("7");
            assert("7"@ =~= seq![spec_digit(7)]);
        }
        "7"
    } else if d == 8 {
        proof {
            reveal_strlit("8");
            assert("8"@ =~= seq![spec_digit(8)]);
        }
        "8"
    } else {
        proof {
            reveal_strlit("9");
            assert(d == 9);
            assert("9"@ =~= seq![spec_digit(9)]);
        }
        "9"
    }
}

/// `n` in decimal notation.
fn u32_to_string(n: u32) -> (r: String)
    ensures
        r@ == spec_dec_digits(n as nat),
    decreases n,
{
    if n < 10 {
        digit_str(n).to_owned()
    } else {
        let mut s = u32_to_string(n / 10);
        s.append(digit_str(n % 10));
        proof {
            assert((n as nat) / 10 == (n / 10) as nat);
            assert((n as nat) % 10 == (n % 10) as nat);
            assert(s@ =~= spec_dec_digits(n as nat));
        }
        s
    }
}

/// A code location: the file and the line at which an assertion was written.
#[derive(Debug, Clone)]
pub struct Location {
    file: String,
    line: u32,
}

/// A report that a single test assertion failed.
///
/// Once created it is immutable but for the optional custom message; its
/// displayed form always ends with a trailing location line.
#[derive(Debug, Clone)]
pub struct TestAssertionFailure {
    /// A human-readable formatted string describing the error.
    pub description: String,
    /// An optional message supplied by the test author, displayed on its own
    /// line between the description and the location line.
    pub custom_message: Option<String>,
    pub location: Location,
}

impl TestAssertionFailure {
    /// The file recorded as the assertion's location.
    pub closed spec fn location_file(&self) -> Seq<char> {
        self.location.file@
    }

    /// The line recorded as the assertion's location.
    pub closed spec fn location_line(&self) -> u32 {
        self.location.line
    }

    /// The failure as displayed: the description, then the custom message on
    /// its own line if there is one, then a line `  at file:line`, each line
    /// terminated by a newline.
    pub open spec fn spec_display(&self) -> Seq<char> {
        self.description@ + seq!['\n'] + (match self.custom_message {
            Some(m) => m@ + seq!['\n'],
            None => Seq::<char>::empty(),
        }) + "  at "@ + self.location_file() + seq![':'] + spec_dec_digits(
            self.location_line() as nat,
        ) + seq!['\n']
    }

    /// Creates a new instance with the given `description`, recording `file`
    /// and `line` as the place the assertion expression was written.
    pub fn create(description: String, file: &'static str, line: u32) -> (r: Self)
        ensures
            r.description@ == description@,
            r.custom_message is None,
            r.location_file() == file@,
            r.location_line() == line,
    {
        Self { description, custom_message: None, location: Location { file: file.to_owned(), line } }
    }

    /// Renders this failure in its displayed form.
    pub fn to_display_string(&self) -> (r: String)
        ensures
            r@ == self.spec_display(),
    {
        let mut out = self.description.clone();
        out.append("\n");
        match &self.custom_message {
            Some(m) => {
                out.append(m.as_str());
                out.append("\n");
            },
            None => {},
        }
        out.append("  at ");
        out.append(self.location.file.as_str());
        out.append(":");
        let line = u32_to_string(self.location.line);
        out.append(line.as_str());
        out.append("\n");
        proof {
            reveal_strlit("\n");
            reveal_strlit(":");
            assert("\n"@ =~= seq!['\n']);
            assert(":"@ =~= seq![':']);
            assert(out@ =~= self.spec_display());
        }
        out
    }
}

} // verus!
