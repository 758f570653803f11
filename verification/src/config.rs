//! The account that the reader logs in with.

use vstd::prelude::*;

verus! {

/// The account and the channel to join.
#[derive(Debug, Clone, PartialEq, Eq)]
pub struct TwitchConfiguration {
    pub oauth_token: String,
    pub username: String,
    pub channel: String,
}

/// The characters that a [`TwitchConfiguration`] holds.
pub ghost struct TwitchConfigurationView {
    pub oauth_token: Seq<char>,
    pub username: Seq<char>,
    pub channel: Seq<char>,
}

impl View for TwitchConfiguration {
    type V = TwitchConfigurationView;

    open spec fn view(&self) -> TwitchConfigurationView {
        TwitchConfigurationView {
            oauth_token: self.oauth_token@,
            username: self.username@,
            channel: self.channel@,
        }
    }
}

} // verus!
