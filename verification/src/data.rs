//! Plain data that sessions carry: account data, previews, the user entry
//! of the central service and the server's boot configuration.

use vstd::prelude::*;

verus! {

/// Visual customisation of a player.
#[derive(Clone, Copy, Debug, PartialEq, Eq, Structural)]
pub struct PlayerIconData {
    pub cube: i16,
    pub ship: i16,
    pub ball: i16,
    pub ufo: i16,
    pub wave: i16,
    pub robot: i16,
    pub spider: i16,
    pub swing: i16,
    pub jetpack: i16,
    pub death_effect: u8,
    pub color1: i16,
    pub color2: i16,
    pub glow_color: i16,
}

/// The special-user profile of an account: the ids of its roles in the role catalogue.
#[derive(Clone, Debug)]
pub struct SpecialUserData {
    pub roles: Vec<u8>,
}

/// What a session knows of its account once it has logged in.
#[derive(Clone, Debug)]
pub struct PlayerAccountData {
    pub account_id: i32,
    pub user_id: i32,
    pub name: String,
    pub icons: PlayerIconData,
    pub special_user_data: Option<SpecialUserData>,
}

/// Account data by value: strings and lists as sequences.
pub struct AccountDataView {
    pub account_id: i32,
    pub user_id: i32,
    pub name: Seq<char>,
    pub icons: PlayerIconData,
    pub special_roles: Option<Seq<u8>>,
}

/// The short form of account data that player lists show.
#[derive(Clone, Debug)]
pub struct PlayerPreviewAccountData {
    pub account_id: i32,
    pub name: String,
    pub cube: i16,
    pub color1: i16,
    pub color2: i16,
    pub glow_color: i16,
}

/// The short form of account data that room lists show.
#[derive(Clone, Debug)]
pub struct PlayerRoomPreviewAccountData {
    pub account_id: i32,
    pub name: String,
    pub cube: i16,
    pub color1: i16,
    pub color2: i16,
    pub glow_color: i16,
    pub level_id: i32,
}

/// What the central service says of a user.
#[derive(Clone, Debug)]
pub struct UserEntry {
    pub account_id: i32,
    pub is_banned: bool,
    pub is_whitelisted: bool,
    pub violation_reason: Option<String>,
    pub violation_expiry: Option<i64>,
    /// The names of the user's roles, for the role catalogue.
    pub user_roles: Vec<String>,
}

/// The role of a user as the role catalogue computes it from the user's role list.
#[derive(Clone, Copy, Debug, PartialEq, Eq, Structural)]
pub struct ComputedRole {
    pub priority: i32,
    pub can_moderate: bool,
}

/// The configuration that the central service hands to a game server.
#[derive(Clone, Debug)]
pub struct GameServerBootData {
    pub maintenance: bool,
    pub whitelist: bool,
    pub tps: u32,
    pub no_chat: Vec<i32>,
    pub status_print_interval: u64,
    /// The secret that the token issuer signs with.
    pub secret_key2: String,
    /// The seconds for which a token is good.
    pub token_expiry: u64,
}

impl PlayerIconData {
    /// The icons of a session that has not logged in.
    pub fn new() -> (icons: PlayerIconData)
        ensures
            icons == Self::spec_default(),
    {
        PlayerIconData {
            cube: 1,
            ship: 1,
            ball: 1,
            ufo: 1,
            wave: 1,
            robot: 1,
            spider: 1,
            swing: 1,
            jetpack: 1,
            death_effect: 1,
            color1: 1,
            color2: 3,
            glow_color: -1i16,
        }
    }

    pub open spec fn spec_default() -> PlayerIconData {
        PlayerIconData {
            cube: 1,
            ship: 1,
            ball: 1,
            ufo: 1,
            wave: 1,
            robot: 1,
            spider: 1,
            swing: 1,
            jetpack: 1,
            death_effect: 1,
            color1: 1,
            color2: 3,
            glow_color: -1i16,
        }
    }
}

impl SpecialUserData {
    /// A copy with the same roles.
    pub fn duplicate(&self) -> (out: SpecialUserData)
        ensures
            out.roles@ == self.roles@,
    {
        SpecialUserData { roles: self.roles.clone() }
    }
}

/// The roles of an optional special-user profile, by value.
pub open spec fn special_roles(data: Option<SpecialUserData>) -> Option<Seq<u8>> {
    match data {
        Some(d) => Some(d.roles@),
        None => None,
    }
}

impl View for PlayerAccountData {
    type V = AccountDataView;

    open spec fn view(&self) -> AccountDataView {
        AccountDataView {
            account_id: self.account_id,
            user_id: self.user_id,
            name: self.name@,
            icons: self.icons,
            special_roles: special_roles(self.special_user_data),
        }
    }
}

impl PlayerAccountData {
    /// The account data of a session that has not logged in: the ids are
    /// zero, the name is empty.
    pub fn new() -> (data: PlayerAccountData)
        ensures
            data@ == Self::empty_view(),
    {
        PlayerAccountData {
            account_id: 0,
            user_id: 0,
            name: String::new(),
            icons: PlayerIconData::new(),
            special_user_data: None,
        }
    }

    pub open spec fn empty_view() -> AccountDataView {
        AccountDataView {
            account_id: 0,
            user_id: 0,
            name: Seq::empty(),
            icons: PlayerIconData::spec_default(),
            special_roles: None,
        }
    }

    /// A copy with the same contents.
    pub fn duplicate(&self) -> (out: PlayerAccountData)
        ensures
            out@ == self@,
    {
        let special = match &self.special_user_data {
            Some(d) => Some(d.duplicate()),
            None => None,
        };
        PlayerAccountData {
            account_id: self.account_id,
            user_id: self.user_id,
            name: self.name.clone(),
            icons: self.icons,
            special_user_data: special,
        }
    }

    /// What `make_preview` returns.
    pub open spec fn preview(&self) -> PlayerPreviewAccountData {
        PlayerPreviewAccountData {
            account_id: self.account_id,
            name: self.name,
            cube: self.icons.cube,
            color1: self.icons.color1,
            color2: self.icons.color2,
            glow_color: self.icons.glow_color,
        }
    }

    /// What `make_room_preview` returns.
    pub open spec fn room_preview(&self, level_id: i32) -> PlayerRoomPreviewAccountData {
        PlayerRoomPreviewAccountData {
            account_id: self.account_id,
            name: self.name,
            cube: self.icons.cube,
            color1: self.icons.color1,
            color2: self.icons.color2,
            glow_color: self.icons.glow_color,
            level_id,
        }
    }

    /// The short form for player lists: id, name, cube and colours.
    pub fn make_preview(&self) -> (out: PlayerPreviewAccountData)
        ensures
            out == self.preview(),
    {
        PlayerPreviewAccountData {
            account_id: self.account_id,
            name: self.name.clone(),
            cube: self.icons.cube,
            color1: self.icons.color1,
            color2: self.icons.color2,
            glow_color: self.icons.glow_color,
        }
    }

    /// The short form for room lists: the preview and the level the player is on.
    pub fn make_room_preview(&self, level_id: i32) -> (out: PlayerRoomPreviewAccountData)
        ensures
            out == self.room_preview(level_id),
    {
        PlayerRoomPreviewAccountData {
            account_id: self.account_id,
            name: self.name.clone(),
            cube: self.icons.cube,
            color1: self.icons.color1,
            color2: self.icons.color2,
            glow_color: self.icons.glow_color,
            level_id,
        }
    }
}

impl GameServerBootData {
    /// Whether the user id is on the list of users who may not chat.
    pub fn no_chat_contains(&self, user_id: i32) -> (found: bool)
        ensures
            found == self.no_chat@.contains(user_id),
    {
        let mut i: usize = 0;
        while i < self.no_chat.len()
            invariant
                i <= self.no_chat.len(),
                forall|j: int| 0 <= j < i ==> self.no_chat@[j] != user_id,
            decreases self.no_chat.len() - i,
        {
            if self.no_chat[i] == user_id {
                return true;
            }
            i += 1;
        }
        false
    }
}

} // verus!
