//! Voice-channel occupancy checks: who shares a channel with the bot.
//!
//! The gateway hands the command layer the guild's voice states; here they
//! are plain values, and the decisions over them are verified.

use vstd::prelude::*;

use crate::display::{push_dec, spec_dec};
use crate::error::SunnyError;
use vstd::string::StringExecFns;

verus! {

/// One member's voice state as the gateway reports it: the member and the
/// voice channel they currently sit in, if any.
#[derive(Clone, Copy, Debug)]
pub struct VoiceMember {
    pub user_id: u64,
    pub channel_id: Option<u64>,
}

/// True when some member other than the bot sits in the given channel.
pub open spec fn spec_has_company(states: Seq<VoiceMember>, channel_id: u64, bot_id: u64) -> bool {
    exists|i: int|
        0 <= i < states.len() && states[i].channel_id == Some(channel_id) && states[i].user_id
            != bot_id
}

/// True when the given member sits in the given channel.
pub open spec fn spec_member_in_channel(
    states: Seq<VoiceMember>,
    channel_id: u64,
    user_id: u64,
) -> bool {
    exists|i: int|
        0 <= i < states.len() && states[i].channel_id == Some(channel_id) && states[i].user_id
            == user_id
}

/// Whether nobody but the bot sits in the bot's voice channel — the idle
/// watchdog's per-tick question.
pub fn check_alone(states: &Vec<VoiceMember>, channel_id: u64, bot_id: u64) -> (r: bool)
    ensures
        r == !spec_has_company(states@, channel_id, bot_id),
{
    let mut i: usize = 0;
    while i < states.len()
        invariant
            0 <= i <= states@.len(),
            forall|k: int|
                0 <= k < i ==> !(states@[k].channel_id == Some(channel_id) && states@[k].user_id
                    != bot_id),
        decreases states@.len() - i,
    {
        let st = states[i];
        match st.channel_id {
            Some(c) => {
                if c == channel_id && st.user_id != bot_id {
                    return false;
                }
            },
            None => {},
        }
        i += 1;
    }
    true
}

/// The user-facing complaint when a command comes from outside the bot's
/// voice channel; the channel is mentioned as the platform renders it.
pub open spec fn spec_wrong_channel_msg(channel_id: u64) -> Seq<char> {
    "I only take requests from users in <#"@ + spec_dec(channel_id as int) + ">"@
}

/// The In-Voice permission gate, mandatory for all mutating operations: a
/// command counts only when its author sits in the very voice channel the
/// bot is connected to.
pub fn in_same_voice_check(
    states: &Vec<VoiceMember>,
    bot_channel_id: u64,
    author_id: u64,
) -> (r: Result<(), SunnyError>)
    ensures
        r is Ok <==> spec_member_in_channel(states@, bot_channel_id, author_id),
        match r {
            Ok(()) => true,
            Err(e) => e is User && e.spec_user_msg() == Some(
                spec_wrong_channel_msg(bot_channel_id),
            ),
        },
{
    let mut i: usize = 0;
    while i < states.len()
        invariant
            0 <= i <= states@.len(),
            forall|k: int|
                0 <= k < i ==> !(states@[k].channel_id == Some(bot_channel_id)
                    && states@[k].user_id == author_id),
        decreases states@.len() - i,
    {
        let st = states[i];
        match st.channel_id {
            Some(c) => {
                if c == bot_channel_id && st.user_id == author_id {
                    return Ok(());
                }
            },
            None => {},
        }
        i += 1;
    }
    let mut msg = String::from_str("I only take requests from users in <#");
    msg = push_dec(msg, bot_channel_id);
    let msg = msg.concat(">");
    proof {
        assert(msg@ =~= spec_wrong_channel_msg(bot_channel_id));
    }
    Err(SunnyError::User(msg))
}

} // verus!
