//! Distilling a conversation transcript into a purpose-driven summary:
//! the tone profiles that steer the summary, and the exact prompt text
//! built from a transcript.
//!
//! Loading profile files and talking to the generative provider stay in
//! the unverified shell; profile selection and prompt assembly are
//! decided here.

use vstd::prelude::*;
use vstd::string::StringExecFns;
use crate::textutil::str_eq;

verus! {

/// A named tone profile: how the summary should sound.
#[derive(Debug)]
pub struct ToneProfile {
    pub name: String,
    pub description: String,
    pub system_prompt: String,
}

/// The whole profile configuration: every profile on offer.
#[derive(Debug)]
pub struct ToneProfileConfig {
    pub profiles: Vec<ToneProfile>,
}

/// One utterance of a conversation.
#[derive(Debug)]
pub struct ConversationTurn {
    pub speaker: String,
    pub text: String,
}

/// A whole conversation transcript, in order.
#[derive(Debug)]
pub struct Conversation {
    pub conversation: Vec<ConversationTurn>,
}

/// The first profile carrying the requested name, if any.
pub fn select_profile(config: &ToneProfileConfig, name: &str) -> (r: Option<usize>)
    ensures
        (r matches Some(i) ==> i < config.profiles@.len() && config.profiles@[i as int].name@
            == name@ && (forall|j: int| 0 <= j < i ==> config.profiles@[j].name@ != name@)),
        r is None ==> (forall|j: int|
            0 <= j < config.profiles@.len() ==> config.profiles@[j].name@ != name@),
{
    let n = config.profiles.len();
    let mut i: usize = 0;
    while i < n
        invariant
            n == config.profiles@.len(),
            i <= n,
            forall|j: int| 0 <= j < i ==> config.profiles@[j].name@ != name@,
        decreases n - i,
    {
        if str_eq(config.profiles[i].name.as_str(), name) {
            return Some(i);
        }
        i = i + 1;
    }
    None
}

/// One transcript line per turn: the speaker, a separator, the words.
pub open spec fn spec_transcript_lines(turns: Seq<ConversationTurn>) -> Seq<char>
    decreases turns.len(),
{
    if turns.len() == 0 {
        Seq::empty()
    } else {
        turns[0].speaker@ + ": "@ + turns[0].text@ + "\n"@ + spec_transcript_lines(
            turns.drop_first(),
        )
    }
}

/// The full plain-text script handed to the model: header, one line per
/// turn, footer.
pub open spec fn spec_transcript(turns: Seq<ConversationTurn>) -> Seq<char> {
    "CONVERSATION TRANSCRIPT:\n---\n"@ + spec_transcript_lines(turns)
        + "---\nEND OF TRANSCRIPT"@
}

/// Formats the conversation into the plain script the model reads.
pub fn format_conversation_for_prompt(conversation: &Conversation) -> (r: String)
    ensures
        r@ == spec_transcript(conversation.conversation@),
{
    let turns = &conversation.conversation;
    let mut body = String::new();
    let n = turns.len();
    proof {
        assert(turns@.skip(0) == turns@);
    }
    let mut i: usize = 0;
    while i < n
        invariant
            n == turns@.len(),
            i <= n,
            spec_transcript_lines(turns@) =~= body@ + spec_transcript_lines(
                turns@.skip(i as int),
            ),
        decreases n - i,
    {
        body.append(turns[i].speaker.as_str());
        body.append(": ");
        body.append(turns[i].text.as_str());
        body.append("\n");
        proof {
            let rest = turns@.skip(i as int);
            assert(rest.first() == turns@[i as int]);
            assert(rest.drop_first() =~= turns@.skip(i + 1));
            assert(spec_transcript_lines(turns@) =~= body@ + spec_transcript_lines(
                turns@.skip(i + 1),
            ));
        }
        i = i + 1;
    }
    proof {
        assert(turns@.skip(n as int) =~= Seq::<ConversationTurn>::empty());
    }
    let mut r = String::from_str("CONVERSATION TRANSCRIPT:\n---\n");
    r.append(body.as_str());
    r.append("---\nEND OF TRANSCRIPT");
    r
}

/// The two prompts a distillation sends: the profile's own system
/// prompt, and the formatted transcript as the user prompt.
pub fn distill_prompts(conversation: &Conversation, profile: &ToneProfile) -> (r: (
    String,
    String,
))
    ensures
        r.0@ == profile.system_prompt@,
        r.1@ == spec_transcript(conversation.conversation@),
{
    (profile.system_prompt.clone(), format_conversation_for_prompt(conversation))
}

} // verus!
