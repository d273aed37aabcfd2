//! Text made of fixed parts, numbers and the lines of a session.

use vstd::arithmetic::power::pow;
use vstd::prelude::*;
use vstd::string::StringExecFns;

verus! {

/// The character of a decimal digit.
pub open spec fn digit(d: nat) -> char {
    ('0' as nat + d) as char
}

/// A number in decimal, without leading zeros.
pub open spec fn decimal(n: nat) -> Seq<char>
    decreases n,
{
    if n < 10 {
        seq![digit(n)]
    } else {
        decimal(n / 10).push(digit(n % 10))
    }
}

fn digit_text(d: u64) -> (text: &'static str)
    requires
        d < 10,
    ensures
        text@ == seq![digit(d as nat)],
{
    match d {
        0 => {
            proof {
                reveal_strlit("0");
            }
            "0"
        },
        1 => {
            proof {
                reveal_strlit("1");
            }
            "1"
        },
        2 => {
            proof {
                reveal_strlit("2");
            }
            "2"
        },
        3 => {
            proof {
                reveal_strlit("3");
            }
            "3"
        },
        4 => {
            proof {
                reveal_strlit("4");
            }
            "4"
        },
        5 => {
            proof {
                reveal_strlit("5");
            }
            "5"
        },
        6 => {
            proof {
                reveal_strlit("6");
            }
            "6"
        },
        7 => {
            proof {
                reveal_strlit("7");
            }
            "7"
        },
        8 => {
            proof {
                reveal_strlit("8");
            }
            "8"
        },
        _ => {
            proof {
                reveal_strlit("9");
            }
            "9"
        },
    }
}

/// A number in decimal.
pub fn number_text(n: u64) -> (text: String)
    ensures
        text@ == decimal(n as nat),
    decreases n,
{
    let mut text: String = if n < 10 { String::new() } else { number_text(n / 10) };
    text.append(digit_text(n % 10));
    assert(text@ =~= decimal(n as nat));
    text
}

/// Where a line is shown.
#[derive(Clone, Copy, Debug, PartialEq, Eq, Structural)]
pub enum Outlet {
    /// The progress spinner of the session.
    Spinner,
    /// The progress spinner, which stops on the line.
    SpinnerEnd,
    /// The console.
    Console,
}

/// What stands in front of a line, highlighted.
#[derive(Clone, Copy, Debug, PartialEq, Eq, Structural)]
pub enum Badge {
    /// Nothing.
    Plain,
    /// The word `ERROR`.
    Failure,
    /// The word `OK`.
    Success,
}

/// A line that a session shows.
#[derive(Debug)]
pub struct Line {
    pub outlet: Outlet,
    pub badge: Badge,
    pub text: String,
}

#[verifier::ext_equal]
pub struct LineView {
    pub outlet: Outlet,
    pub badge: Badge,
    pub text: Seq<char>,
}

impl View for Line {
    type V = LineView;

    open spec fn view(&self) -> LineView {
        LineView { outlet: self.outlet, badge: self.badge, text: self.text@ }
    }
}

/// The view of a line that may be missing.
pub open spec fn line_view(line: Option<Line>) -> Option<LineView> {
    match line {
        Some(l) => Some(l@),
        None => None,
    }
}

/// A plain line on the console.
pub open spec fn console_line(text: Seq<char>) -> LineView {
    LineView { outlet: Outlet::Console, badge: Badge::Plain, text }
}

/// The line that reports an error on the spinner: the badge, a colon, the text.
pub open spec fn error_line(text: Seq<char>) -> LineView {
    LineView { outlet: Outlet::Spinner, badge: Badge::Failure, text: ": "@ + text }
}

/// The line that stops the spinner on an error.
pub open spec fn final_error_line(text: Seq<char>) -> LineView {
    LineView { outlet: Outlet::SpinnerEnd, ..error_line(text) }
}

/// The line that reports an error on the spinner.
pub fn report_error(text: &str) -> (line: Line)
    ensures
        line@ == error_line(text@),
        line.outlet == Outlet::Spinner,
        line.badge == Badge::Failure,
        line.text@ == ": "@ + text@,
{
    let mut full: String = String::from_str(": ");
    full.append(text);
    Line { outlet: Outlet::Spinner, badge: Badge::Failure, text: full }
}

/// The line that stops the spinner on an error.
pub fn report_final_error(text: &str) -> (line: Line)
    ensures
        line@ == final_error_line(text@),
        line.outlet == Outlet::SpinnerEnd,
        line.badge == Badge::Failure,
        line.text@ == ": "@ + text@,
{
    Line { outlet: Outlet::SpinnerEnd, ..report_error(text) }
}

/// A text in quotes, as `Debug` of `str` shows it.
pub uninterp spec fn quoted_text(text: Seq<char>) -> Seq<char>;

/// Shows a text by `Debug` of `str`.
///
/// Trusted: what is shown depends on the text alone.
#[verifier::external_body]
pub(crate) fn quote(text: &str) -> (quoted: String)
    ensures
        quoted@ == quoted_text(text@),
{
    format!("{:?}", text)
}

/// The digit at each place of a decimal number is what that place holds of the
/// number; counted from the right, place `i` holds so many times ten to the power
/// of `i`.
pub proof fn each_digit_is_in_its_place(n: nat, i: nat)
    requires
        i < decimal(n).len(),
    ensures
        decimal(n)[decimal(n).len() - 1 - i] as int == '0' as int + (n as int / pow(10, i)) % 10,
    decreases n,
{
    reveal(pow);
    if n < 10 {
        assert(n as int / 1 == n);
    } else if i == 0 {
        assert(n as int / 1 == n);
    } else {
        let rest = (i - 1) as nat;
        each_digit_is_in_its_place(n / 10, rest);
        vstd::arithmetic::power::lemma_pow_positive(10, rest);
        vstd::arithmetic::div_mod::lemma_div_denominator(n as int, 10, pow(10, rest));
    }
}

/// A decimal number has no more digits than it needs, and at least one.
pub proof fn no_digit_is_wasted(n: nat)
    ensures
        decimal(n).len() > 0,
        n < pow(10, decimal(n).len()),
        decimal(n).len() > 1 ==> n >= pow(10, (decimal(n).len() - 1) as nat),
    decreases n,
{
    reveal(pow);
    if n < 10 {
        assert(pow(10, 1) == 10 * pow(10, 0));
    } else {
        no_digit_is_wasted(n / 10);
        let len = decimal(n / 10).len();
        assert(pow(10, len + 1) == 10 * pow(10, len));
        assert(pow(10, len) == 10 * pow(10, (len - 1) as nat));
        assert(pow(10, 0) == 1);
    }
}

/// Two numbers that read the same are the same.
pub proof fn numbers_read_apart(a: nat, b: nat)
    requires
        decimal(a) == decimal(b),
    ensures
        a == b,
    decreases a,
{
    each_digit_is_in_its_place(a, 0);
    each_digit_is_in_its_place(b, 0);
    no_digit_is_wasted(a);
    no_digit_is_wasted(b);
    assert(pow(10, 0) == 1) by {
        reveal(pow);
    }
    assert(a % 10 == b % 10);
    if a < 10 || b < 10 {
        if a >= 10 {
            no_digit_is_wasted(a / 10);
        }
        if b >= 10 {
            no_digit_is_wasted(b / 10);
        }
    } else {
        assert(decimal(a).drop_last() =~= decimal(a / 10));
        assert(decimal(b).drop_last() =~= decimal(b / 10));
        numbers_read_apart(a / 10, b / 10);
    }
}

/// An error shows as the badge of failure, a colon and the whole text; the last one
/// stops the spinner.
pub proof fn an_error_is_shown_whole(text: Seq<char>)
    ensures
        error_line(text).text == ": "@ + text,
        error_line(text).badge == Badge::Failure,
        error_line(text).outlet == Outlet::Spinner,
        final_error_line(text).text == ": "@ + text,
        final_error_line(text).badge == Badge::Failure,
        final_error_line(text).outlet == Outlet::SpinnerEnd,
        console_line(text).text == text,
        console_line(text).badge == Badge::Plain,
        console_line(text).outlet == Outlet::Console,
{
}

/// What is stated of a line speaks of all that it holds.
pub proof fn a_line_is_seen_whole(line: Line)
    ensures
        line@.outlet == line.outlet,
        line@.badge == line.badge,
        line@.text == line.text@,
        line_view(Some(line)) == Some(line@),
        line_view(None) is None,
{
}

} // verus!
