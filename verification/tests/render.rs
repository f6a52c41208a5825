use osu_leaderboard::registry::RegisterOutcome;
use osu_leaderboard::render::{
    error_message, outcome_error, outcome_message, render_field_title, render_field_value,
    u64_to_decimal, BotError,
};

#[test]
fn decimal_rendering() {
    assert_eq!(u64_to_decimal(0), "0");
    assert_eq!(u64_to_decimal(7), "7");
    assert_eq!(u64_to_decimal(10), "10");
    assert_eq!(u64_to_decimal(15), "15");
    assert_eq!(u64_to_decimal(105), "105");
    assert_eq!(u64_to_decimal(u64::MAX), "18446744073709551615");
}

#[test]
fn field_rendering() {
    assert_eq!(render_field_title(3, &"peppy".to_string()), "#3 peppy");
    assert_eq!(render_field_value(&"727.27".to_string()), "score: 727.27");
}

#[test]
fn outcome_messages() {
    let id = "peppy".to_string();
    assert_eq!(
        outcome_message(RegisterOutcome::Registered, &id),
        "User peppy is now registered for this server"
    );
    assert_eq!(
        outcome_message(RegisterOutcome::AlreadyRegistered, &id),
        "User peppy is already registered for this server"
    );
    assert_eq!(
        outcome_message(RegisterOutcome::UnknownExternalUser, &id),
        "User peppy does not exist on the ranking service"
    );
}

#[test]
fn error_messages() {
    assert_eq!(
        error_message(BotError::StorageFault),
        "storage error: the server registry could not be reached"
    );
    assert_eq!(
        error_message(BotError::AlreadyRegistered),
        "this user is already registered for this server"
    );
    assert_eq!(
        error_message(BotError::UnknownExternalUser),
        "this user does not exist on the ranking service"
    );
    assert_eq!(
        error_message(BotError::ExternalServiceFault),
        "the ranking service could not be reached"
    );
    assert_eq!(
        error_message(BotError::Unauthorized),
        "you are not allowed to register users on this server"
    );
}

#[test]
fn outcomes_map_to_errors() {
    assert_eq!(outcome_error(RegisterOutcome::Registered), None);
    assert_eq!(
        outcome_error(RegisterOutcome::AlreadyRegistered),
        Some(BotError::AlreadyRegistered)
    );
    assert_eq!(
        outcome_error(RegisterOutcome::UnknownExternalUser),
        Some(BotError::UnknownExternalUser)
    );
}
