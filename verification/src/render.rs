//! Rendering of display text: decimal rank numbers, leaderboard field
//! strings, and the user-visible texts for outcomes and faults.

use vstd::prelude::*;

use crate::registry::RegisterOutcome;

verus! {

/// Everything that can go wrong while handling a command, as it is surfaced
/// to the invoking user.
#[derive(Clone, Copy, Debug, PartialEq, Eq, Structural)]
pub enum BotError {
    /// The backing store was unreachable or rejected a statement.
    StorageFault,
    /// The identifier is already registered for this community.
    AlreadyRegistered,
    /// The external ranking service does not know the identifier.
    UnknownExternalUser,
    /// A ranking lookup failed or timed out.
    ExternalServiceFault,
    /// The caller is not on the allow-list for this command.
    Unauthorized,
}

/// The decimal digit character sequence for a single digit.
pub open spec fn spec_digit(d: nat) -> Seq<char> {
    if d == 0 {
        "0"@
    } else if d == 1 {
        "1"@
    } else if d == 2 {
        "2"@
    } else if d == 3 {
        "3"@
    } else if d == 4 {
        "4"@
    } else if d == 5 {
        "5"@
    } else if d == 6 {
        "6"@
    } else if d == 7 {
        "7"@
    } else if d == 8 {
        "8"@
    } else {
        "9"@
    }
}

/// The decimal rendering of `n`, most significant digit first, without
/// leading zeros (a single zero for `n == 0`).
pub open spec fn spec_decimal(n: nat) -> Seq<char>
    decreases n,
{
    if n < 10 {
        spec_digit(n)
    } else {
        spec_decimal(n / 10) + spec_digit(n % 10)
    }
}

/// The title of a rendered leaderboard field: `#<rank> <identifier>`.
pub open spec fn spec_field_title(rank: nat, id: Seq<char>) -> Seq<char> {
    "#"@ + spec_decimal(rank) + " "@ + id
}

/// The value of a rendered leaderboard field: `score: <text>`.
pub open spec fn spec_field_value(score_text: Seq<char>) -> Seq<char> {
    "score: "@ + score_text
}

fn digit_str(d: u64) -> (r: &'static str)
    requires
        d < 10,
    ensures
        r@ == spec_digit(d as nat),
{
    if d == 0 {
        "0"
    } else if d == 1 {
        "1"
    } else if d == 2 {
        "2"
    } else if d == 3 {
        "3"
    } else if d == 4 {
        "4"
    } else if d == 5 {
        "5"
    } else if d == 6 {
        "6"
    } else if d == 7 {
        "7"
    } else if d == 8 {
        "8"
    } else {
        "9"
    }
}

/// Renders `n` in decimal.
pub fn u64_to_decimal(n: u64) -> (r: String)
    ensures
        r@ == spec_decimal(n as nat),
    decreases n,
{
    if n < 10 {
        String::from_str(digit_str(n))
    } else {
        let mut s = u64_to_decimal(n / 10);
        s.append(digit_str(n % 10));
        proof {
            assert((n / 10) as nat == (n as nat) / 10);
            assert((n % 10) as nat == (n as nat) % 10);
        }
        s
    }
}

/// Renders the field title for the entry at this one-based rank.
pub fn render_field_title(rank: u64, external_id: &String) -> (r: String)
    ensures
        r@ == spec_field_title(rank as nat, external_id@),
{
    let mut s = String::from_str("#");
    let digits = u64_to_decimal(rank);
    s.append(digits.as_str());
    s.append(" ");
    s.append(external_id.as_str());
    proof {
        assert(s@ =~= spec_field_title(rank as nat, external_id@));
    }
    s
}

/// Renders the field value carrying the entry's score text.
pub fn render_field_value(score_text: &String) -> (r: String)
    ensures
        r@ == spec_field_value(score_text@),
{
    let mut s = String::from_str("score: ");
    s.append(score_text.as_str());
    s
}

/// The response text for a registration attempt.
pub open spec fn spec_outcome_message(outcome: RegisterOutcome, id: Seq<char>) -> Seq<char> {
    match outcome {
        RegisterOutcome::Registered => "User "@ + id + " is now registered for this server"@,
        RegisterOutcome::AlreadyRegistered => "User "@ + id
            + " is already registered for this server"@,
        RegisterOutcome::UnknownExternalUser => "User "@ + id
            + " does not exist on the ranking service"@,
    }
}

/// Renders the response text for a registration attempt.
pub fn outcome_message(outcome: RegisterOutcome, external_id: &String) -> (r: String)
    ensures
        r@ == spec_outcome_message(outcome, external_id@),
{
    let mut s = String::from_str("User ");
    s.append(external_id.as_str());
    match outcome {
        RegisterOutcome::Registered => s.append(" is now registered for this server"),
        RegisterOutcome::AlreadyRegistered => s.append(" is already registered for this server"),
        RegisterOutcome::UnknownExternalUser => s.append(
            " does not exist on the ranking service",
        ),
    }
    s
}

/// The plain-text explanation for each fault.
pub open spec fn spec_error_message(e: BotError) -> Seq<char> {
    match e {
        BotError::StorageFault => "storage error: the server registry could not be reached"@,
        BotError::AlreadyRegistered => "this user is already registered for this server"@,
        BotError::UnknownExternalUser => "this user does not exist on the ranking service"@,
        BotError::ExternalServiceFault => "the ranking service could not be reached"@,
        BotError::Unauthorized => "you are not allowed to register users on this server"@,
    }
}

/// Renders the plain-text explanation for a fault.
pub fn error_message(e: BotError) -> (r: String)
    ensures
        r@ == spec_error_message(e),
{
    match e {
        BotError::StorageFault => String::from_str(
            "storage error: the server registry could not be reached",
        ),
        BotError::AlreadyRegistered => String::from_str(
            "this user is already registered for this server",
        ),
        BotError::UnknownExternalUser => String::from_str(
            "this user does not exist on the ranking service",
        ),
        BotError::ExternalServiceFault => String::from_str(
            "the ranking service could not be reached",
        ),
        BotError::Unauthorized => String::from_str(
            "you are not allowed to register users on this server",
        ),
    }
}

/// The fault a rejected registration outcome maps to at the command
/// boundary; a successful registration maps to none.
pub fn outcome_error(outcome: RegisterOutcome) -> (r: Option<BotError>)
    ensures
        r == match outcome {
            RegisterOutcome::Registered => Option::<BotError>::None,
            RegisterOutcome::AlreadyRegistered => Option::Some(BotError::AlreadyRegistered),
            RegisterOutcome::UnknownExternalUser => Option::Some(BotError::UnknownExternalUser),
        },
{
    match outcome {
        RegisterOutcome::Registered => None,
        RegisterOutcome::AlreadyRegistered => Some(BotError::AlreadyRegistered),
        RegisterOutcome::UnknownExternalUser => Some(BotError::UnknownExternalUser),
    }
}

} // verus!
