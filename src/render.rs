//! The replies shown to users. Causes of remote failures are for the log
//! only and never appear here.
use vstd::prelude::*;
use crate::access::JAMMER;
use crate::provision::{ProvisionError, ProvisionedChannelSet};
use crate::teardown::TeardownError;
use crate::text::{decimal_spec, push_decimal};
use crate::theme::SubmissionResult;

verus! {

/// A link to channel `id`.
pub open spec fn channel_link(id: u64) -> Seq<char> {
    "<#"@ + decimal_spec(id as nat) + ">"@
}

/// The reply to a provisioning run.
pub open spec fn provision_message(r: Result<ProvisionedChannelSet, ProvisionError>) -> Seq<char> {
    match r {
        Ok(set) => "Channels created for your game "@ + set.display_name@ + " here: "@
            + channel_link(set.text_channel_id),
        Err(ProvisionError::AlreadyOwned(rec)) => "You have already created channels for your game "@
            + rec.display_name@ + " here: "@ + channel_link(rec.category_id),
        Err(ProvisionError::NoName) => "You need to specify a game name."@,
        Err(ProvisionError::InvalidName) => "Game names cannot contain the character `"@,
        Err(ProvisionError::CategoryCreationFailed(_)) => "Category creation failed."@,
        Err(ProvisionError::CategoryTypeMismatch) => "Category creation failed."@,
        Err(ProvisionError::TextCreationFailed(_)) => "Text channel creation failed."@,
        Err(ProvisionError::TextTypeMismatch) => "Text channel creation failed."@,
        Err(ProvisionError::VoiceCreationFailed(_)) => "Voice channel creation failed."@,
        Err(ProvisionError::VoiceTypeMismatch) => "Voice channel creation failed."@,
    }
}

/// The reply to a teardown; `display_name` is that of the removed set.
pub open spec fn teardown_message(r: Result<(), TeardownError>, display_name: Seq<char>) -> Seq<
    char,
> {
    match r {
        Ok(()) => "Removed the channels for team "@ + display_name + "."@,
        Err(TeardownError::MissingUserId) => "You forgot to provide a user id."@,
        Err(TeardownError::InvalidUserId) => "That user id is invalid."@,
        Err(TeardownError::NotFound) => "That user does not have any team channels."@,
        Err(TeardownError::RemoteDeletionFailed(_)) => "Removing the channels failed."@,
    }
}

fn push_link(out: &mut String, id: u64)
    ensures
        final(out)@ == old(out)@ + channel_link(id),
{
    out.append("<#");
    push_decimal(out, id);
    out.append(">");
    assert(final(out)@ =~= old(out)@ + channel_link(id));
}

/// The reply to a provisioning run.
pub fn provision_reply(r: &Result<ProvisionedChannelSet, ProvisionError>) -> (m: String)
    ensures
        m@ == provision_message(*r),
{
    match r {
        Ok(set) => {
            let mut out = String::from_str("Channels created for your game ");
            out.append(set.display_name.as_str());
            out.append(" here: ");
            push_link(&mut out, set.text_channel_id);
            assert(out@ =~= provision_message(*r));
            out
        },
        Err(ProvisionError::AlreadyOwned(rec)) => {
            let mut out = String::from_str("You have already created channels for your game ");
            out.append(rec.display_name.as_str());
            out.append(" here: ");
            push_link(&mut out, rec.category_id);
            assert(out@ =~= provision_message(*r));
            out
        },
        Err(ProvisionError::NoName) => String::from_str("You need to specify a game name."),
        Err(ProvisionError::InvalidName) => String::from_str(
            "Game names cannot contain the character `",
        ),
        Err(ProvisionError::CategoryCreationFailed(_)) => String::from_str(
            "Category creation failed.",
        ),
        Err(ProvisionError::CategoryTypeMismatch) => String::from_str("Category creation failed."),
        Err(ProvisionError::TextCreationFailed(_)) => String::from_str(
            "Text channel creation failed.",
        ),
        Err(ProvisionError::TextTypeMismatch) => String::from_str("Text channel creation failed."),
        Err(ProvisionError::VoiceCreationFailed(_)) => String::from_str(
            "Voice channel creation failed.",
        ),
        Err(ProvisionError::VoiceTypeMismatch) => String::from_str("Voice channel creation failed."),
    }
}

/// The reply to a teardown; `display_name` is that of the removed set.
pub fn teardown_reply(r: &Result<(), TeardownError>, display_name: &str) -> (m: String)
    ensures
        m@ == teardown_message(*r, display_name@),
{
    match r {
        Ok(()) => {
            let out = String::from_str("Removed the channels for team ").concat(display_name).concat(
                ".",
            );
            assert(out@ =~= teardown_message(*r, display_name@));
            out
        },
        Err(TeardownError::MissingUserId) => String::from_str("You forgot to provide a user id."),
        Err(TeardownError::InvalidUserId) => String::from_str("That user id is invalid."),
        Err(TeardownError::NotFound) => String::from_str(
            "That user does not have any team channels.",
        ),
        Err(TeardownError::RemoteDeletionFailed(_)) => String::from_str(
            "Removing the channels failed.",
        ),
    }
}

/// The reply to a user who may not ask for a channel set yet.
pub open spec fn provision_denied_message() -> Seq<char> {
    "Oo, you found a secret command. \u{1F609}\nYou will be able to use this command once you have been assigned the **"@
        + JAMMER@
        + "** role.\nYou will be able to get this role once the jam has started. The details on how to do so will be made available at that point."@
}

/// The reply to a user who may not ask for a channel set yet: it names the
/// role needed and when it can be had.
pub fn provision_denied_reply() -> (m: String)
    ensures
        m@ == provision_denied_message(),
{
    let out = String::from_str(
        "Oo, you found a secret command. \u{1F609}\nYou will be able to use this command once you have been assigned the **",
    ).concat(JAMMER).concat(
        "** role.\nYou will be able to get this role once the jam has started. The details on how to do so will be made available at that point.",
    );
    assert(out@ =~= provision_denied_message());
    out
}

/// The terse reply to a user who may not take channel sets down; it says
/// nothing of the store.
pub fn teardown_denied_reply() -> (m: String)
    ensures
        m@ == "WAT"@,
{
    String::from_str("WAT")
}

/// The help text.
pub fn help_reply() -> (m: String)
    ensures
        m@ == "Talk to me in a PM to submit theme ideas.\n\nYou can also ask for a voice channel by sending `~create_channel <channel name>`\n\nGet a new role with `~role <role name>`\nand leave a role with `~leave <role name>`"@,
{
    String::from_str(
        "Talk to me in a PM to submit theme ideas.\n\nYou can also ask for a voice channel by sending `~create_channel <channel name>`\n\nGet a new role with `~role <role name>`\nand leave a role with `~leave <role name>`",
    )
}

/// The reply to a command word that names no command.
pub fn unknown_command_reply() -> (m: String)
    ensures
        m@ == "Unrecognised command"@,
{
    String::from_str("Unrecognised command")
}

/// The reply to a theme idea of more or fewer than one word.
pub fn theme_not_one_word_reply() -> (m: String)
    ensures
        m@ == "Themes ideas should only be a single word"@,
{
    String::from_str("Themes ideas should only be a single word")
}

/// The reply to a recorded theme idea.
pub open spec fn theme_message(r: SubmissionResult) -> Seq<char> {
    match r {
        SubmissionResult::Done => "Theme idea registered, thanks!"@,
        SubmissionResult::AlreadySubmitted => "You can only send one idea. We replaced your old submission"@,
    }
}

/// The reply to a recorded theme idea.
pub fn theme_reply(r: SubmissionResult) -> (m: String)
    ensures
        m@ == theme_message(r),
{
    match r {
        SubmissionResult::Done => String::from_str("Theme idea registered, thanks!"),
        SubmissionResult::AlreadySubmitted => String::from_str(
            "You can only send one idea. We replaced your old submission",
        ),
    }
}

} // verus!
