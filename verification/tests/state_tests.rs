use scoreboard_engine::dispatch::ActivationPlan;
use scoreboard_engine::dispatch::CommandArg;
use scoreboard_engine::dispatch::CommandKind;
use scoreboard_engine::dispatch::RegisterOutcome;
use scoreboard_engine::dispatch::RegisterPlan;
use scoreboard_engine::dispatch::classify_command;
use scoreboard_engine::dispatch::plan_activation;
use scoreboard_engine::dispatch::plan_register;
use scoreboard_engine::dispatch::register_reply;
use scoreboard_engine::dispatch::settle_register;
use scoreboard_engine::dispatch::should_delete_message;
use scoreboard_engine::location::ScoreboardLocation;
use scoreboard_engine::refresh::RefreshDirective;
use scoreboard_engine::refresh::plan_refresh;

#[test]
fn arm_updates_both_fields_as_one_pair() {
    let mut loc = ScoreboardLocation::new();
    assert!(!loc.is_armed());
    assert_eq!(loc.read(), (None, None));
    loc.arm(77, 4242);
    assert!(loc.is_armed());
    assert_eq!(loc.read(), (Some(77), Some(4242)));
}

#[test]
fn partially_saved_location_stays_disarmed() {
    let loc = ScoreboardLocation::from_saved(Some(7), None);
    assert!(!loc.is_armed());
    let loc = ScoreboardLocation::from_saved(None, Some(9));
    assert!(!loc.is_armed());
    let loc = ScoreboardLocation::from_saved(Some(7), Some(9));
    assert!(loc.is_armed());
}

#[test]
fn disarmed_refresh_skips_without_any_outbound_work() {
    let disarmed = ScoreboardLocation::new();
    assert_eq!(plan_refresh(&disarmed), RefreshDirective::Skip);
    let half = ScoreboardLocation::from_saved(Some(5), None);
    assert_eq!(plan_refresh(&half), RefreshDirective::Skip);
}

#[test]
fn armed_refresh_targets_the_recorded_message() {
    let mut loc = ScoreboardLocation::new();
    loc.arm(5, 6);
    assert_eq!(plan_refresh(&loc), RefreshDirective::Run { channel: 5, message: 6 });
}

#[test]
fn commands_are_classified_by_exact_name() {
    assert_eq!(classify_command("register"), CommandKind::Register);
    assert_eq!(classify_command("leaderboard"), CommandKind::Leaderboard);
    assert_eq!(classify_command("registers"), CommandKind::Unknown);
    assert_eq!(classify_command(""), CommandKind::Unknown);
}

#[test]
fn moderation_deletes_only_strangers_in_the_scoreboard_channel() {
    let mut loc = ScoreboardLocation::new();
    loc.arm(10, 1);
    assert!(should_delete_message(&loc, 10, false));
    assert!(!should_delete_message(&loc, 10, true));
    assert!(!should_delete_message(&loc, 11, false));
    // With the scoreboard unset nothing is deleted and nothing panics.
    let unset = ScoreboardLocation::new();
    assert!(!should_delete_message(&unset, 10, false));
}

#[test]
fn register_rejects_missing_or_non_text_option() {
    assert!(matches!(plan_register(None), RegisterPlan::RejectBadOption));
    assert!(matches!(plan_register(Some(CommandArg::OtherKind)), RegisterPlan::RejectBadOption));
}

#[test]
fn register_accepts_names_between_three_and_sixteen_chars() {
    match plan_register(Some(CommandArg::Text("abc".to_owned()))) {
        RegisterPlan::Resolve(name) => assert_eq!(name, "abc"),
        _ => panic!("three characters must reach the provider"),
    }
    let sixteen = "abcdefghijklmnop".to_owned();
    assert!(matches!(
        plan_register(Some(CommandArg::Text(sixteen))),
        RegisterPlan::Resolve(_)
    ));
    let seventeen = "abcdefghijklmnopq".to_owned();
    assert!(matches!(
        plan_register(Some(CommandArg::Text(seventeen))),
        RegisterPlan::RejectBadLength
    ));
}

#[test]
fn unknown_name_is_rejected_and_resolution_stored() {
    assert!(matches!(settle_register(None), RegisterOutcome::RejectUnknownName));
    match settle_register(Some("stable-id".to_owned())) {
        RegisterOutcome::Store(id) => assert_eq!(id, "stable-id"),
        _ => panic!("a resolved id must be stored"),
    }
    assert_eq!(
        register_reply(&RegisterOutcome::RejectUnknownName),
        "Invalid summoner name"
    );
    assert_eq!(
        register_reply(&RegisterOutcome::Store("x".to_owned())),
        "Account Registered. It will be included on next refresh."
    );
}

#[test]
fn activation_requires_a_channel() {
    assert_eq!(plan_activation(None), ActivationPlan::RejectNoChannel);
    assert_eq!(plan_activation(Some(31)), ActivationPlan::ArmChannel(31));
}
