//! The other chat commands: recognising a command word, theme ideas of one
//! word, free-standing voice channels and self-assigned roles.
use vstd::prelude::*;
use crate::text::{join_spec, join_words, word_views};

verus! {

/// A command word.
#[derive(Clone, Copy, Debug, PartialEq, Eq, Structural)]
pub enum Command {
    Help,
    CreateChannel,
    CreateChannels,
    RemoveChannels,
    GiveRole,
    LeaveRole,
    /// Starts with `~` but is no known command.
    Unknown,
    /// Not meant as a command.
    NotCommand,
}

/// The command that a first word names.
pub open spec fn command_of(w: Seq<char>) -> Command {
    if w == "~help"@ {
        Command::Help
    } else if w == "~create_channel"@ {
        Command::CreateChannel
    } else if w == "~create_channels"@ {
        Command::CreateChannels
    } else if w == "~remove_channels"@ {
        Command::RemoveChannels
    } else if w == "~role"@ {
        Command::GiveRole
    } else if w == "~leave"@ {
        Command::LeaveRole
    } else if w.len() > 0 && w[0] == '~' {
        Command::Unknown
    } else {
        Command::NotCommand
    }
}

/// Whether two texts are equal.
pub fn same_text(a: &str, b: &str) -> (r: bool)
    ensures
        r == (a@ == b@),
{
    let n = a.unicode_len();
    if n != b.unicode_len() {
        return false;
    }
    let mut i: usize = 0;
    while i < n
        invariant
            n == a@.len(),
            n == b@.len(),
            i <= n,
            forall|k: int| 0 <= k < i ==> a@[k] == b@[k],
        decreases n - i,
    {
        if a.get_char(i) != b.get_char(i) {
            return false;
        }
        i = i + 1;
    }
    assert(a@ =~= b@);
    true
}

/// Recognises the first word of a message.
pub fn classify_command(word: &str) -> (c: Command)
    ensures
        c == command_of(word@),
{
    if same_text(word, "~help") {
        Command::Help
    } else if same_text(word, "~create_channel") {
        Command::CreateChannel
    } else if same_text(word, "~create_channels") {
        Command::CreateChannels
    } else if same_text(word, "~remove_channels") {
        Command::RemoveChannels
    } else if same_text(word, "~role") {
        Command::GiveRole
    } else if same_text(word, "~leave") {
        Command::LeaveRole
    } else if word.unicode_len() > 0 && word.get_char(0) == '~' {
        Command::Unknown
    } else {
        Command::NotCommand
    }
}

/// ASCII whitespace, as words are split on it.
pub open spec fn is_ascii_space(c: char) -> bool {
    c == ' ' || c == '\t' || c == '\n' || c == '\r' || c == '\x0C'
}

/// The number of words in `s`: runs of characters between ASCII
/// whitespace.
pub open spec fn word_count(s: Seq<char>) -> nat
    decreases s.len(),
{
    if s.len() == 0 {
        0
    } else {
        word_count(s.drop_last()) + if !is_ascii_space(s.last()) && (s.len() == 1
            || is_ascii_space(s[s.len() - 2])) {
            1nat
        } else {
            0nat
        }
    }
}

/// Whether `s` is exactly one word, as a theme idea must be.
pub fn is_single_word(s: &str) -> (r: bool)
    ensures
        r == (word_count(s@) == 1),
{
    let n = s.unicode_len();
    let mut count: usize = 0;
    let mut prev_space = true;
    let mut i: usize = 0;
    while i < n
        invariant
            n == s@.len(),
            i <= n,
            count == word_count(s@.take(i as int)),
            count <= i,
            prev_space == (i == 0 || is_ascii_space(s@[i - 1])),
        decreases n - i,
    {
        let c = s.get_char(i);
        let space = c == ' ' || c == '\t' || c == '\n' || c == '\r' || c == '\x0C';
        proof {
            let after = s@.take(i + 1);
            assert(after.drop_last() =~= s@.take(i as int));
            assert(after.last() == c);
            if i > 0 {
                assert(after[i - 1] == s@[i - 1]);
            }
        }
        if !space && prev_space {
            count = count + 1;
        }
        prev_space = space;
        i = i + 1;
    }
    assert(s@.take(n as int) =~= s@);
    count == 1
}

/// Why a voice channel name was refused.
#[derive(Clone, Copy, Debug, PartialEq, Eq, Structural)]
pub enum ChannelNameError {
    Missing,
    HasWhitespace,
    InvalidCharacters,
}

/// A character allowed in a voice channel name: `_`, a digit or anything
/// from `A` to `z`.
pub open spec fn is_channel_name_char(c: char) -> bool {
    c == '_' || ('A' <= c && c <= 'z') || ('0' <= c && c <= '9')
}

/// A non-empty run of allowed characters.
pub open spec fn is_channel_name(s: Seq<char>) -> bool {
    s.len() > 0 && forall|i: int| 0 <= i < s.len() ==> is_channel_name_char(#[trigger] s[i])
}

/// Checks the words given as a voice channel name: exactly one word, made
/// of allowed characters.
pub fn check_channel_name(words: &Vec<String>) -> (r: Result<(), ChannelNameError>)
    ensures
        words@.len() == 0 <==> r == Err::<(), ChannelNameError>(ChannelNameError::Missing),
        words@.len() > 1 <==> r == Err::<(), ChannelNameError>(ChannelNameError::HasWhitespace),
        words@.len() == 1 && !is_channel_name(words@[0]@) <==> r == Err::<(), ChannelNameError>(
            ChannelNameError::InvalidCharacters,
        ),
        r is Ok <==> words@.len() == 1 && is_channel_name(words@[0]@),
{
    if words.len() == 0 {
        return Err(ChannelNameError::Missing);
    }
    if words.len() > 1 {
        return Err(ChannelNameError::HasWhitespace);
    }
    let w = words[0].as_str();
    let n = w.unicode_len();
    if n == 0 {
        return Err(ChannelNameError::InvalidCharacters);
    }
    let mut i: usize = 0;
    while i < n
        invariant
            words@.len() == 1,
            w@ == words@[0]@,
            n == w@.len(),
            i <= n,
            forall|k: int| 0 <= k < i ==> is_channel_name_char(#[trigger] w@[k]),
        decreases n - i,
    {
        let c = w.get_char(i);
        if !(c == '_' || ('A' <= c && c <= 'z') || ('0' <= c && c <= '9')) {
            return Err(ChannelNameError::InvalidCharacters);
        }
        i = i + 1;
    }
    Ok(())
}

/// The reply to a refused voice channel name.
pub open spec fn channel_name_message(e: ChannelNameError) -> Seq<char> {
    match e {
        ChannelNameError::Missing => "You need to specify a team name"@,
        ChannelNameError::HasWhitespace => "Channel names can not contain whitespace"@,
        ChannelNameError::InvalidCharacters => "Channel names can only contain A-z, _ and digits"@,
    }
}

/// The reply to a refused voice channel name.
pub fn channel_name_reply(e: ChannelNameError) -> (m: String)
    ensures
        m@ == channel_name_message(e),
{
    match e {
        ChannelNameError::Missing => String::from_str("You need to specify a team name"),
        ChannelNameError::HasWhitespace => String::from_str(
            "Channel names can not contain whitespace",
        ),
        ChannelNameError::InvalidCharacters => String::from_str(
            "Channel names can only contain A-z, _ and digits",
        ),
    }
}

/// The reply once a voice channel was asked for: the kind the remote side
/// created, or the cause of its failure.
pub open spec fn voice_channel_message(outcome: Result<crate::provision::ChannelKind, String>) -> Seq<
    char,
> {
    match outcome {
        Ok(crate::provision::ChannelKind::Voice) => "Channel created \u{1F38A}"@,
        Ok(_) => "A channel was created but it wasn't a voice channel \u{1F914}. Blame discord"@,
        Err(_) => "Channel creation failed, check logs for details"@,
    }
}

/// The reply once a voice channel was asked for.
pub fn voice_channel_reply(outcome: &Result<crate::provision::ChannelKind, String>) -> (m: String)
    ensures
        m@ == voice_channel_message(*outcome),
{
    match outcome {
        Ok(crate::provision::ChannelKind::Voice) => String::from_str("Channel created \u{1F38A}"),
        Ok(_) => String::from_str(
            "A channel was created but it wasn't a voice channel \u{1F914}. Blame discord",
        ),
        Err(_) => String::from_str("Channel creation failed, check logs for details"),
    }
}

/// What `str::to_lowercase` makes of a text.
pub uninterp spec fn lower_of(s: Seq<char>) -> Seq<char>;

/// Relies on `str::to_lowercase`: the lower-case form depends on the
/// characters alone.
#[verifier::external_body]
fn lowercase(s: &str) -> (r: String)
    ensures
        r@ == lower_of(s@),
{
    s.to_lowercase()
}

/// The positions in `names` that equal `wanted`, in increasing order.
pub open spec fn matching_positions(names: Seq<Seq<char>>, wanted: Seq<char>) -> Seq<usize>
    decreases names.len(),
{
    if names.len() == 0 {
        Seq::empty()
    } else if names.last() == wanted {
        matching_positions(names.drop_last(), wanted).push((names.len() - 1) as usize)
    } else {
        matching_positions(names.drop_last(), wanted)
    }
}

/// The positions of the names equal to `wanted`, both already in lower
/// case.
pub fn matching_lowered(lowered_names: &Vec<String>, lowered_wanted: &str) -> (r: Vec<usize>)
    ensures
        r@ == matching_positions(word_views(lowered_names@), lowered_wanted@),
{
    let ghost views = word_views(lowered_names@);
    let mut out: Vec<usize> = Vec::new();
    let mut i: usize = 0;
    while i < lowered_names.len()
        invariant
            i <= lowered_names@.len(),
            views == word_views(lowered_names@),
            out@ == matching_positions(views.take(i as int), lowered_wanted@),
        decreases lowered_names@.len() - i,
    {
        proof {
            let after = views.take(i + 1);
            assert(after.drop_last() =~= views.take(i as int));
            assert(after.last() == lowered_names@[i as int]@);
        }
        if same_text(lowered_names[i].as_str(), lowered_wanted) {
            out.push(i);
        }
        i = i + 1;
    }
    assert(views.take(lowered_names@.len() as int) =~= views);
    out
}

/// The positions of the roles whose name, ignoring case, is the words
/// joined by single spaces.
pub fn matching_roles(role_names: &Vec<String>, words: &Vec<String>) -> (r: Vec<usize>)
    ensures
        r@ == matching_positions(
            word_views(role_names@).map_values(|n: Seq<char>| lower_of(n)),
            lower_of(join_spec(word_views(words@))),
        ),
{
    let wanted = lowercase(join_words(words).as_str());
    let mut lowered: Vec<String> = Vec::new();
    let mut i: usize = 0;
    while i < role_names.len()
        invariant
            i <= role_names@.len(),
            lowered@.len() == i,
            forall|k: int| 0 <= k < i ==> (#[trigger] lowered@[k])@ == lower_of(role_names@[k]@),
        decreases role_names@.len() - i,
    {
        lowered.push(lowercase(role_names[i].as_str()));
        i = i + 1;
    }
    assert(word_views(lowered@) =~= word_views(role_names@).map_values(
        |n: Seq<char>| lower_of(n),
    ));
    matching_lowered(&lowered, wanted.as_str())
}

/// The reply after changing roles: `outcomes` holds, in order, whether
/// each matching role was changed; the last one decides.
pub open spec fn role_message(outcomes: Seq<bool>, adding: bool) -> Seq<char> {
    if outcomes.len() == 0 {
        "You need to to specify a valid role.\nAvailable roles are:```Programmer\n2D Artist\n3D Artist\nSound Designer\nMusician\nBoard Games```"@
    } else if !outcomes.last() {
        "Something went wrong."@
    } else if adding {
        "New role assigned."@
    } else {
        "Role removed."@
    }
}

/// The reply after changing roles.
pub fn role_reply(outcomes: &Vec<bool>, adding: bool) -> (m: String)
    ensures
        m@ == role_message(outcomes@, adding),
{
    let n = outcomes.len();
    if n == 0 {
        String::from_str(
            "You need to to specify a valid role.\nAvailable roles are:```Programmer\n2D Artist\n3D Artist\nSound Designer\nMusician\nBoard Games```",
        )
    } else if !outcomes[n - 1] {
        String::from_str("Something went wrong.")
    } else if adding {
        String::from_str("New role assigned.")
    } else {
        String::from_str("Role removed.")
    }
}

} // verus!
