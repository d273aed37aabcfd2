//! The balance that a miner needs before it sends anything.

use crate::text::{Badge, Line, LineView, Outlet};
use vstd::prelude::*;
use vstd::string::StringExecFns;

verus! {

/// The balance that is not enough: 0.005 SOL, in lamports.
pub const MIN_BALANCE_LAMPORTS: u64 = 5_000_000;

/// A known balance at or below the minimum stops a session; one that could not
/// be read does not.
pub open spec fn balance_suffices(balance: Option<u64>) -> bool {
    match balance {
        Some(lamports) => lamports > MIN_BALANCE_LAMPORTS,
        None => true,
    }
}

/// Whether a session may go on with the balance that was read.
pub fn check_balance(balance: Option<u64>) -> (enough: bool)
    ensures
        enough == balance_suffices(balance),
        balance matches Some(lamports) ==> enough == (lamports > 5_000_000),
        balance is None ==> enough,
{
    match balance {
        Some(lamports) => lamports > MIN_BALANCE_LAMPORTS,
        None => true,
    }
}

/// The text of an amount in SOL: `lamports_to_sol` of `solana_program`, displayed.
pub uninterp spec fn sol_text(lamports: u64) -> Seq<char>;

/// Calls `native_token::lamports_to_sol` of `solana_program` and displays what it
/// gives.
///
/// Trusted: the text depends on the amount alone.
#[verifier::external_body]
fn display_sol(lamports: u64) -> (text: String)
    ensures
        text@ == sol_text(lamports),
{
    solana_program::native_token::lamports_to_sol(lamports).to_string()
}

/// The line that tells of a balance that is too low, given the balance as text.
pub open spec fn insufficient_line(sol: Seq<char>) -> LineView {
    LineView {
        outlet: Outlet::Console,
        badge: Badge::Failure,
        text: " Insufficient balance: "@ + sol + " SOL\nPlease top up with at least 0.005 SOL"@,
    }
}

/// The line that tells of a balance that is too low, given the balance as text.
pub fn report_insufficient(sol: &str) -> (line: Line)
    ensures
        line@ == insufficient_line(sol@),
        line.outlet == Outlet::Console,
        line.badge == Badge::Failure,
        line.text@ == " Insufficient balance: "@ + sol@
            + " SOL\nPlease top up with at least 0.005 SOL"@,
{
    let mut text: String = String::from_str(" Insufficient balance: ");
    text.append(sol);
    text.append(" SOL\nPlease top up with at least 0.005 SOL");
    Line { outlet: Outlet::Console, badge: Badge::Failure, text }
}

/// The line that tells of a balance that is too low.
pub fn insufficient_balance(lamports: u64) -> (line: Line)
    ensures
        line@ == insufficient_line(sol_text(lamports)),
{
    report_insufficient(display_sol(lamports).as_str())
}

/// A balance suffices exactly if it is above 0.005 SOL, or is not known.
pub proof fn only_a_low_balance_falls_short(lamports: u64)
    ensures
        balance_suffices(Some(lamports)) <==> lamports > 5_000_000,
        balance_suffices(None),
{
}

/// A larger balance never falls short where a smaller one suffices.
pub proof fn more_suffices_as_well(lower: u64, higher: u64)
    requires
        lower <= higher,
        balance_suffices(Some(lower)),
    ensures
        balance_suffices(Some(higher)),
{
}

/// The line on a low balance names the balance and the minimum.
pub proof fn a_low_balance_is_named(sol: Seq<char>)
    ensures
        insufficient_line(sol).outlet == Outlet::Console,
        insufficient_line(sol).badge == Badge::Failure,
        insufficient_line(sol).text == " Insufficient balance: "@ + sol
            + " SOL\nPlease top up with at least 0.005 SOL"@,
{
}

} // verus!
