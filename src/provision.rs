//! Provisioning of a team's channel set: category, then text channel, then
//! voice channel, one remote call at a time. The caller performs each
//! requested creation and hands the outcome back; the ownership record is
//! written only once all three have come back as asked.
use vstd::prelude::*;
use crate::store::{OwnershipRecord, OwnershipStore};
use crate::text::{
    contains_backtick,
    escape_markdown,
    escape_spec,
    join_spec,
    join_words,
    word_views,
};

verus! {

/// The kind of a remote channel.
#[derive(Clone, Copy, Debug, PartialEq, Eq, Structural)]
pub enum ChannelKind {
    Category,
    Text,
    Voice,
    /// Any other kind the remote side may hand back.
    Other,
}

/// A channel the remote side reports as created.
#[derive(Clone, Copy, Debug, PartialEq, Eq, Structural)]
pub struct CreatedChannel {
    pub kind: ChannelKind,
    pub id: u64,
}

/// A channel to be created on the remote side.
#[derive(Debug)]
pub struct ChannelRequest {
    pub name: String,
    pub kind: ChannelKind,
    pub parent: Option<u64>,
    pub topic: Option<String>,
}

/// Which creation a provisioning run waits for.
#[derive(Clone, Copy, Debug, PartialEq, Eq, Structural)]
pub enum Stage {
    Category,
    Text { category_id: u64 },
    Voice { category_id: u64, text_id: u64 },
}

/// A provisioning run between two remote calls.
#[derive(Debug)]
pub struct Provisioning {
    pub owner: u64,
    /// The name as the user typed it, words joined by single spaces.
    pub raw_name: String,
    /// The markdown-escaped name, kept in the record and echoed back.
    pub safe_name: String,
    pub stage: Stage,
}

/// What a successful run created.
#[derive(Debug)]
pub struct ProvisionedChannelSet {
    pub display_name: String,
    pub category_id: u64,
    pub text_channel_id: u64,
}

/// Why a provisioning run ended without a channel set. The `String` of a
/// failed creation is the remote side's description of the cause, for the
/// operator's log.
#[derive(Debug)]
pub enum ProvisionError {
    /// The user already owns this set.
    AlreadyOwned(OwnershipRecord),
    NoName,
    /// The name holds a backtick.
    InvalidName,
    CategoryCreationFailed(String),
    CategoryTypeMismatch,
    TextCreationFailed(String),
    TextTypeMismatch,
    VoiceCreationFailed(String),
    VoiceTypeMismatch,
}

impl ProvisionError {
    /// The remote side's description of a failed creation; the other
    /// errors have no underlying cause.
    pub fn cause(&self) -> (r: Option<&String>)
        ensures
            r is Some <==> (self is CategoryCreationFailed || self is TextCreationFailed
                || self is VoiceCreationFailed),
            self matches ProvisionError::CategoryCreationFailed(c) ==> r == Some(c),
            self matches ProvisionError::TextCreationFailed(c) ==> r == Some(c),
            self matches ProvisionError::VoiceCreationFailed(c) ==> r == Some(c),
    {
        match self {
            ProvisionError::CategoryCreationFailed(c) => Some(c),
            ProvisionError::TextCreationFailed(c) => Some(c),
            ProvisionError::VoiceCreationFailed(c) => Some(c),
            _ => None,
        }
    }
}

/// The next thing a provisioning run asks of its caller.
#[derive(Debug)]
pub enum ProvisionStep {
    /// Create this channel and hand the outcome to `advance_provision`
    /// together with the run.
    Create(Provisioning, ChannelRequest),
    /// The run is over.
    Finished(Result<ProvisionedChannelSet, ProvisionError>),
}

/// The kind of channel that a stage waits for.
pub open spec fn expected_kind(stage: Stage) -> ChannelKind {
    match stage {
        Stage::Category => ChannelKind::Category,
        Stage::Text { .. } => ChannelKind::Text,
        Stage::Voice { .. } => ChannelKind::Voice,
    }
}

/// The category that a stage past the first one hangs under.
pub open spec fn stage_category(stage: Stage) -> u64 {
    match stage {
        Stage::Category => 0,
        Stage::Text { category_id } => category_id,
        Stage::Voice { category_id, .. } => category_id,
    }
}

/// The text channel that the last stage has created.
pub open spec fn stage_text(stage: Stage) -> u64 {
    match stage {
        Stage::Voice { text_id, .. } => text_id,
        _ => 0,
    }
}

/// The title of a team's category.
pub open spec fn category_title(name: Seq<char>) -> Seq<char> {
    "Team: "@ + name
}

/// The topic of a team's text channel.
pub open spec fn text_topic(name: Seq<char>) -> Seq<char> {
    "Work on and playtesting of the game "@ + name + "."@
}

/// `step` finished with `AlreadyOwned`, naming the record of `owner` that
/// `store` holds.
pub open spec fn is_already_owned(
    step: ProvisionStep,
    owner: u64,
    store: Map<u64, (Seq<char>, u64)>,
) -> bool {
    step matches ProvisionStep::Finished(Err(ProvisionError::AlreadyOwned(rec))) && rec.owner
        == owner && rec.entry() == store[owner]
}

/// `step` asks for the category of a run for `owner` with the name `name`.
pub open spec fn asks_for_category(step: ProvisionStep, owner: u64, name: Seq<char>) -> bool {
    step matches ProvisionStep::Create(p, req) && p.owner == owner && p.raw_name@ == name
        && p.safe_name@ == escape_spec(name) && p.stage == Stage::Category && req.name@
        == category_title(name) && req.kind == ChannelKind::Category && req.parent is None
        && req.topic is None
}

/// `step` continues the run `p` at `stage`, asking for the channel that
/// `stage` waits for.
pub open spec fn continues_with(step: ProvisionStep, p: Provisioning, stage: Stage) -> bool {
    step matches ProvisionStep::Create(q, req) && q.owner == p.owner && q.raw_name@ == p.raw_name@
        && q.safe_name@ == p.safe_name@ && q.stage == stage && req.kind == expected_kind(stage)
        && req.name@ == p.raw_name@ && match stage {
        Stage::Text { category_id } => req.parent == Some(category_id) && (req.topic matches Some(
            t,
        ) && t@ == text_topic(p.raw_name@)),
        Stage::Voice { category_id, .. } => req.parent == Some(category_id) && req.topic is None,
        Stage::Category => false,
    }
}

/// The error for a failed creation at `stage`, with the cause `cause`.
pub open spec fn is_creation_failure(step: ProvisionStep, stage: Stage, cause: Seq<char>) -> bool {
    match stage {
        Stage::Category => step matches ProvisionStep::Finished(
            Err(ProvisionError::CategoryCreationFailed(c)),
        ) && c@ == cause,
        Stage::Text { .. } => step matches ProvisionStep::Finished(
            Err(ProvisionError::TextCreationFailed(c)),
        ) && c@ == cause,
        Stage::Voice { .. } => step matches ProvisionStep::Finished(
            Err(ProvisionError::VoiceCreationFailed(c)),
        ) && c@ == cause,
    }
}

/// The error for a channel of the wrong kind at `stage`.
pub open spec fn is_type_mismatch(step: ProvisionStep, stage: Stage) -> bool {
    match stage {
        Stage::Category => step matches ProvisionStep::Finished(
            Err(ProvisionError::CategoryTypeMismatch),
        ),
        Stage::Text { .. } => step matches ProvisionStep::Finished(
            Err(ProvisionError::TextTypeMismatch),
        ),
        Stage::Voice { .. } => step matches ProvisionStep::Finished(
            Err(ProvisionError::VoiceTypeMismatch),
        ),
    }
}

fn copy_string(s: &String) -> (r: String)
    ensures
        r@ == s@,
{
    s.clone()
}

/// Starts a run for `owner` with the name typed as `words`. A user who
/// already owns a set gets `AlreadyOwned` before anything else is looked
/// at; then no words give `NoName`, a backtick gives `InvalidName`, and
/// any other name asks for the category `Team: <name>`. Nothing remote
/// happens unless a `Create` comes back.
pub fn begin_provision(store: &OwnershipStore, owner: u64, words: &Vec<String>) -> (r:
    ProvisionStep)
    requires
        store.wf(),
    ensures
        store@.contains_key(owner) ==> is_already_owned(r, owner, store@),
        !store@.contains_key(owner) && join_spec(word_views(words@)).len() == 0 ==> r matches ProvisionStep::Finished(Err(ProvisionError::NoName)),
        !store@.contains_key(owner) && join_spec(word_views(words@)).len() > 0 && join_spec(
            word_views(words@),
        ).contains('`') ==> r matches ProvisionStep::Finished(Err(ProvisionError::InvalidName)),
        !store@.contains_key(owner) && join_spec(word_views(words@)).len() > 0 && !join_spec(
            word_views(words@),
        ).contains('`') ==> asks_for_category(r, owner, join_spec(word_views(words@))),
{
    match store.get(owner) {
        Some(rec) => {
            return ProvisionStep::Finished(Err(ProvisionError::AlreadyOwned(rec.duplicate())));
        },
        None => {},
    }
    let name = join_words(words);
    if name.unicode_len() == 0 {
        return ProvisionStep::Finished(Err(ProvisionError::NoName));
    }
    if contains_backtick(name.as_str()) {
        return ProvisionStep::Finished(Err(ProvisionError::InvalidName));
    }
    let safe = escape_markdown(name.as_str());
    let title = String::from_str("Team: ").concat(name.as_str());
    ProvisionStep::Create(
        Provisioning { owner, raw_name: name, safe_name: safe, stage: Stage::Category },
        ChannelRequest { name: title, kind: ChannelKind::Category, parent: None, topic: None },
    )
}

/// Takes the outcome of the creation that `run` asked for. A failure or a
/// channel of another kind than asked ends the run with the matching error
/// and leaves the store as it was; channels already created stay. The
/// category leads to the text channel, the text channel to the voice
/// channel, and the voice channel to the record `owner -> (safe name,
/// category)`, written only if the owner still has none.
pub fn advance_provision(
    store: &mut OwnershipStore,
    run: Provisioning,
    outcome: Result<CreatedChannel, String>,
) -> (r: ProvisionStep)
    requires
        old(store).wf(),
    ensures
        final(store).wf(),
        outcome matches Err(cause) ==> is_creation_failure(r, run.stage, cause@),
        outcome matches Ok(ch) && ch.kind != expected_kind(run.stage) ==> is_type_mismatch(
            r,
            run.stage,
        ),
        (outcome is Err || outcome->Ok_0.kind != expected_kind(run.stage)) ==> final(store)@ == old(
            store,
        )@,
        outcome is Ok && outcome->Ok_0.kind == ChannelKind::Category && run.stage
            == Stage::Category ==> continues_with(
            r,
            run,
            Stage::Text { category_id: outcome->Ok_0.id },
        ) && final(store)@ == old(store)@,
        outcome is Ok && outcome->Ok_0.kind == ChannelKind::Text && run.stage is Text
            ==> continues_with(
            r,
            run,
            Stage::Voice { category_id: stage_category(run.stage), text_id: outcome->Ok_0.id },
        ) && final(store)@ == old(store)@,
        outcome is Ok && outcome->Ok_0.kind == ChannelKind::Voice && run.stage is Voice
            && old(store)@.contains_key(run.owner) ==> is_already_owned(r, run.owner, old(store)@)
            && final(store)@ == old(store)@,
        outcome is Ok && outcome->Ok_0.kind == ChannelKind::Voice && run.stage is Voice
            && !old(store)@.contains_key(run.owner) ==> final(store)@ == old(store)@.insert(
            run.owner,
            (run.safe_name@, stage_category(run.stage)),
        ) && (r matches ProvisionStep::Finished(Ok(set)) && set.display_name@ == run.safe_name@
            && set.category_id == stage_category(run.stage) && set.text_channel_id
            == stage_text(run.stage)),
{
    let ch = match outcome {
        Err(cause) => {
            return match run.stage {
                Stage::Category => ProvisionStep::Finished(
                    Err(ProvisionError::CategoryCreationFailed(cause)),
                ),
                Stage::Text { .. } => ProvisionStep::Finished(
                    Err(ProvisionError::TextCreationFailed(cause)),
                ),
                Stage::Voice { .. } => ProvisionStep::Finished(
                    Err(ProvisionError::VoiceCreationFailed(cause)),
                ),
            };
        },
        Ok(ch) => ch,
    };
    match run.stage {
        Stage::Category => {
            if ch.kind != ChannelKind::Category {
                return ProvisionStep::Finished(Err(ProvisionError::CategoryTypeMismatch));
            }
            let topic = String::from_str("Work on and playtesting of the game ").concat(
                run.raw_name.as_str(),
            ).concat(".");
            let req = ChannelRequest {
                name: copy_string(&run.raw_name),
                kind: ChannelKind::Text,
                parent: Some(ch.id),
                topic: Some(topic),
            };
            ProvisionStep::Create(Provisioning { stage: Stage::Text { category_id: ch.id }, ..run }, req)
        },
        Stage::Text { category_id } => {
            if ch.kind != ChannelKind::Text {
                return ProvisionStep::Finished(Err(ProvisionError::TextTypeMismatch));
            }
            let req = ChannelRequest {
                name: copy_string(&run.raw_name),
                kind: ChannelKind::Voice,
                parent: Some(category_id),
                topic: None,
            };
            ProvisionStep::Create(
                Provisioning { stage: Stage::Voice { category_id, text_id: ch.id }, ..run },
                req,
            )
        },
        Stage::Voice { category_id, text_id } => {
            if ch.kind != ChannelKind::Voice {
                return ProvisionStep::Finished(Err(ProvisionError::VoiceTypeMismatch));
            }
            match store.get(run.owner) {
                Some(rec) => {
                    return ProvisionStep::Finished(
                        Err(ProvisionError::AlreadyOwned(rec.duplicate())),
                    );
                },
                None => {},
            }
            let display_name = copy_string(&run.safe_name);
            let inserted = store.insert_if_absent(run.owner, run.safe_name, category_id);
            assert(inserted);
            ProvisionStep::Finished(
                Ok(ProvisionedChannelSet { display_name, category_id, text_channel_id: text_id }),
            )
        },
    }
}

} // verus!
