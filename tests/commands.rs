use teambot::access::{can_provision, can_tear_down, holds_named_role, JAMMER, ORGANIZER};
use teambot::commands::{
    channel_name_reply, check_channel_name, classify_command, is_single_word, matching_lowered,
    matching_roles, role_reply, voice_channel_reply, ChannelNameError, Command,
};
use teambot::provision::{ChannelKind, ProvisionError};
use teambot::render::{
    help_reply, provision_denied_reply, teardown_denied_reply, theme_not_one_word_reply, theme_reply,
    unknown_command_reply,
};
use teambot::theme::{SubmissionResult, ThemeIdeas};

fn words(ws: &[&str]) -> Vec<String> {
    ws.iter().map(|w| w.to_string()).collect()
}

#[test]
fn provisioning_needs_jammer_or_organizer() {
    assert!(can_provision(true, false));
    assert!(can_provision(false, true));
    assert!(can_provision(true, true));
    assert!(!can_provision(false, false));
}

#[test]
fn teardown_needs_organizer() {
    assert!(can_tear_down(true));
    assert!(!can_tear_down(false));
}

#[test]
fn denial_replies() {
    assert_eq!(
        provision_denied_reply(),
        format!(
            "Oo, you found a secret command. \u{1F609}\nYou will be able to use this command once you have been assigned the **{}** role.\nYou will be able to get this role once the jam has started. The details on how to do so will be made available at that point.",
            JAMMER
        )
    );
    assert_eq!(teardown_denied_reply(), "WAT");
    assert_ne!(JAMMER, ORGANIZER);
}

#[test]
fn commands_are_recognised() {
    assert_eq!(classify_command("~help"), Command::Help);
    assert_eq!(classify_command("~create_channel"), Command::CreateChannel);
    assert_eq!(classify_command("~create_channels"), Command::CreateChannels);
    assert_eq!(classify_command("~remove_channels"), Command::RemoveChannels);
    assert_eq!(classify_command("~role"), Command::GiveRole);
    assert_eq!(classify_command("~leave"), Command::LeaveRole);
    assert_eq!(classify_command("~dance"), Command::Unknown);
    assert_eq!(classify_command("~"), Command::Unknown);
    assert_eq!(classify_command("hello"), Command::NotCommand);
    assert_eq!(classify_command(""), Command::NotCommand);
}

#[test]
fn single_words() {
    assert!(is_single_word("space"));
    assert!(is_single_word("  space\n"));
    assert!(!is_single_word("two words"));
    assert!(!is_single_word(""));
    assert!(!is_single_word(" \t "));
}

#[test]
fn channel_names() {
    assert_eq!(check_channel_name(&words(&[])), Err(ChannelNameError::Missing));
    assert_eq!(check_channel_name(&words(&["a", "b"])), Err(ChannelNameError::HasWhitespace));
    assert_eq!(check_channel_name(&words(&["bad-name"])), Err(ChannelNameError::InvalidCharacters));
    assert_eq!(check_channel_name(&words(&["good_name_2"])), Ok(()));
    assert_eq!(check_channel_name(&words(&["a^b"])), Ok(()));
    assert_eq!(
        channel_name_reply(ChannelNameError::InvalidCharacters),
        "Channel names can only contain A-z, _ and digits"
    );
}

#[test]
fn voice_channel_replies() {
    assert_eq!(voice_channel_reply(&Ok(ChannelKind::Voice)), "Channel created \u{1F38A}");
    assert_eq!(
        voice_channel_reply(&Ok(ChannelKind::Text)),
        "A channel was created but it wasn't a voice channel \u{1F914}. Blame discord"
    );
    assert_eq!(
        voice_channel_reply(&Err("x".to_string())),
        "Channel creation failed, check logs for details"
    );
}

#[test]
fn roles_match_ignoring_case() {
    let roles = words(&["Programmer", "2D Artist", "Sound Designer", "PROGRAMMER"]);
    assert_eq!(matching_roles(&roles, &words(&["programmer"])), vec![0, 3]);
    assert_eq!(matching_roles(&roles, &words(&["sound", "DESIGNER"])), vec![2]);
    assert_eq!(matching_roles(&roles, &words(&["juggler"])), Vec::<usize>::new());
    assert_eq!(matching_lowered(&words(&["a", "b", "a"]), "a"), vec![0, 2]);
}

#[test]
fn role_replies() {
    assert!(role_reply(&vec![], true).starts_with("You need to to specify a valid role."));
    assert_eq!(role_reply(&vec![true], true), "New role assigned.");
    assert_eq!(role_reply(&vec![true], false), "Role removed.");
    assert_eq!(role_reply(&vec![true, false], true), "Something went wrong.");
}

#[test]
fn theme_ideas_replace_earlier_ones() {
    let mut ideas = ThemeIdeas::new();
    assert_eq!(ideas.try_add(1, "space"), SubmissionResult::Done);
    assert_eq!(ideas.try_add(2, "time"), SubmissionResult::Done);
    assert_eq!(ideas.try_add(1, "ocean"), SubmissionResult::AlreadySubmitted);
    let entries = ideas.entries();
    assert_eq!(entries.len(), 2);
    let one = entries.iter().find(|e| e.user == 1).unwrap();
    assert_eq!(one.idea, "ocean");
}

#[test]
fn fixed_replies() {
    assert!(help_reply().starts_with("Talk to me in a PM to submit theme ideas."));
    assert!(help_reply().contains("`~create_channel <channel name>`"));
    assert_eq!(unknown_command_reply(), "Unrecognised command");
    assert_eq!(theme_not_one_word_reply(), "Themes ideas should only be a single word");
    assert_eq!(theme_reply(SubmissionResult::Done), "Theme idea registered, thanks!");
    assert_eq!(
        theme_reply(SubmissionResult::AlreadySubmitted),
        "You can only send one idea. We replaced your old submission"
    );
}

#[test]
fn roles_are_looked_up_by_name() {
    let ids = vec![10, 20, 30];
    let names = words(&["Jammer", "Organizer", "Musician"]);
    assert!(holds_named_role(&vec![20], &ids, &names, "Organizer"));
    assert!(!holds_named_role(&vec![20], &ids, &names, "Jammer"));
    assert!(!holds_named_role(&vec![], &ids, &names, "Organizer"));
    assert!(!holds_named_role(&vec![20], &ids, &names, "organizer"));
}

#[test]
fn only_remote_failures_have_a_cause() {
    let e = ProvisionError::TextCreationFailed("boom".to_string());
    assert_eq!(e.cause().map(|c| c.as_str()), Some("boom"));
    assert_eq!(ProvisionError::TextTypeMismatch.cause(), None);
    assert_eq!(ProvisionError::NoName.cause(), None);
}
