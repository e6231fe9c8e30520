//! Event dispatch decisions: classify inbound chat events and decide what
//! each one should cause, without performing any outbound call itself.
use crate::location::ScoreboardLocation;
use vstd::prelude::*;

verus! {

/// The value carried by a command option, as far as this core reads it.
#[derive(Debug)]
pub enum CommandArg {
    /// A plain text option value.
    Text(String),
    /// An option of any other kind; the register command rejects it.
    OtherKind,
}

/// How a register command proceeds: rejected before any provider call, or
/// resolved against the ranking provider.
#[derive(Debug)]
pub enum RegisterPlan {
    /// The option is missing or not text: reject, no provider call.
    RejectBadOption,
    /// The name's length is outside the allowed range: reject, no provider
    /// call.
    RejectBadLength,
    /// Ask the provider to resolve this name to a stable id.
    Resolve(String),
}

/// The shortest and longest accepted identity name, in characters.
pub open spec fn name_len_ok(n: nat) -> bool {
    3 <= n <= 16
}

/// Decide how to treat a register command from its first option. Only a
/// present, text-valued option whose name has an accepted length reaches the
/// provider; everything else is rejected first.
pub fn plan_register(arg: Option<CommandArg>) -> (r: RegisterPlan)
    ensures
        match arg {
            None => r is RejectBadOption,
            Some(a) => match a {
                CommandArg::OtherKind => r is RejectBadOption,
                CommandArg::Text(name) => if name_len_ok(name@.len()) {
                    r == RegisterPlan::Resolve(name)
                } else {
                    r is RejectBadLength
                },
            },
        },
{
    match arg {
        Some(CommandArg::Text(name)) => {
            let len = crate::render::chars_of(name.as_str()).len();
            if 3 <= len && len <= 16 {
                RegisterPlan::Resolve(name)
            } else {
                RegisterPlan::RejectBadLength
            }
        },
        Some(CommandArg::OtherKind) => RegisterPlan::RejectBadOption,
        None => RegisterPlan::RejectBadOption,
    }
}

/// The outcome of a register command after the provider answered.
#[derive(Debug)]
pub enum RegisterOutcome {
    /// The provider knows no such name: reject, nothing stored.
    RejectUnknownName,
    /// Store this provider id (set-if-absent) and acknowledge.
    Store(String),
}

/// Decide what to do with the provider's resolution answer.
pub fn settle_register(resolved: Option<String>) -> (r: RegisterOutcome)
    ensures
        match resolved {
            None => r is RejectUnknownName,
            Some(id) => r == RegisterOutcome::Store(id),
        },
{
    match resolved {
        Some(id) => RegisterOutcome::Store(id),
        None => RegisterOutcome::RejectUnknownName,
    }
}

/// The user-visible reply for each register rejection or acknowledgement.
pub fn register_reply(outcome: &RegisterOutcome) -> (r: &'static str)
    ensures
        outcome is RejectUnknownName ==> r@ == "Invalid summoner name"@,
        outcome is Store ==> r@ == "Account Registered. It will be included on next refresh."@,
{
    match outcome {
        RegisterOutcome::RejectUnknownName => "Invalid summoner name",
        RegisterOutcome::Store(_) => "Account Registered. It will be included on next refresh.",
    }
}

/// How an activate-leaderboard command proceeds.
#[derive(Clone, Copy, PartialEq, Eq, Structural, Debug)]
pub enum ActivationPlan {
    /// The command did not arrive from a channel: nothing to arm.
    RejectNoChannel,
    /// Create a fresh message in this channel, then arm the scoreboard with
    /// both ids and run a refresh cycle at once.
    ArmChannel(u64),
}

/// Decide how to treat an activate-leaderboard command from its channel. A
/// missing channel is a rejected command, not a crash.
pub fn plan_activation(invoking_channel: Option<u64>) -> (r: ActivationPlan)
    ensures
        invoking_channel is None ==> r == ActivationPlan::RejectNoChannel,
        invoking_channel is Some ==> r == ActivationPlan::ArmChannel(invoking_channel->0),
{
    match invoking_channel {
        Some(channel) => ActivationPlan::ArmChannel(channel),
        None => ActivationPlan::RejectNoChannel,
    }
}

/// Channel hygiene: delete a posted message exactly when it sits in the
/// armed scoreboard channel and was not written by the bot itself. With the
/// scoreboard channel unset nothing is deleted and nothing fails.
pub fn should_delete_message(loc: &ScoreboardLocation, msg_channel: u64, author_is_bot: bool) -> (r:
    bool)
    ensures
        r == (loc.channel == Some(msg_channel) && !author_is_bot),
{
    if author_is_bot {
        false
    } else {
        match loc.channel {
            Some(channel) => channel == msg_channel,
            None => false,
        }
    }
}

/// Which of the two commands an interaction names.
#[derive(Clone, Copy, PartialEq, Eq, Structural, Debug)]
pub enum CommandKind {
    Register,
    Leaderboard,
    Unknown,
}

/// Classify a command by its name: exactly `register` and `leaderboard` are
/// known.
pub fn classify_command(name: &str) -> (r: CommandKind)
    ensures
        (r == CommandKind::Register) == (name@ == "register"@),
        (r == CommandKind::Leaderboard) == (name@ == "leaderboard"@),
{
    proof {
        reveal_strlit("register");
        reveal_strlit("leaderboard");
        assert("register"@.len() == 8);
        assert("leaderboard"@.len() == 11);
    }
    if name.to_owned() == "register".to_owned() {
        CommandKind::Register
    } else if name.to_owned() == "leaderboard".to_owned() {
        CommandKind::Leaderboard
    } else {
        CommandKind::Unknown
    }
}

} // verus!
