//! Which of the two ways to log in is taken.

use vstd::prelude::*;

verus! {

/// The ways to log in.
#[derive(Clone, Copy, Debug, PartialEq, Eq, Structural)]
pub enum LoginType {
    /// As a bot.
    Bot,
    /// As a user.
    User,
}

/// The way to log in with the tokens that are at hand: as a bot where
/// there is a token for that, else as a user where there is one for that.
pub fn login(bot_token: Option<String>, user_token: Option<String>) -> (r: Option<
    (LoginType, String),
>)
    ensures
        r == (match (bot_token, user_token) {
            (Some(token), _) => Some((LoginType::Bot, token)),
            (None, Some(token)) => Some((LoginType::User, token)),
            (None, None) => None,
        }),
{
    match bot_token {
        Some(token) => Some((LoginType::Bot, token)),
        None => match user_token {
            Some(token) => Some((LoginType::User, token)),
            None => None,
        },
    }
}

} // verus!
