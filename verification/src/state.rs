//! The local read model: the account that is signed in, its conversations and
//! the servers it has joined.

use crate::text::{begins_with, decimal, decimal_text, starts_with};
use vstd::prelude::*;
use vstd::string::*;

verus! {

/// An account, as the gateway describes it.
#[derive(Debug, Clone, PartialEq, Eq, Hash)]
pub struct User {
    pub id: String,
    pub username: String,
    pub global_name: String,
    pub avatar_hash: String,
}

/// The mathematical value of a [`User`].
pub struct UserView {
    pub id: Seq<char>,
    pub username: Seq<char>,
    pub global_name: Seq<char>,
    pub avatar_hash: Seq<char>,
}

impl UserView {
    /// The name to show: the global name, or the username where that is empty.
    pub open spec fn display_name(self) -> Seq<char> {
        if self.global_name.len() > 0 {
            self.global_name
        } else {
            self.username
        }
    }

    /// Whether the account has any name at all.
    pub open spec fn is_named(self) -> bool {
        self.username.len() > 0 || self.global_name.len() > 0
    }

    /// Where the account's avatar is kept on disk.
    pub open spec fn local_avatar_path(self) -> Seq<char> {
        "./assets/avatars/"@ + self.id + "_"@ + self.avatar_hash + ".png"@
    }

    /// Whether the avatar is an animated one.
    pub open spec fn avatar_is_animated(self) -> bool {
        begins_with(self.avatar_hash, "a_"@)
    }

    /// The address the avatar is fetched from.
    pub open spec fn avatar_url(self) -> Seq<char> {
        "https://cdn.discordapp.com/avatars/"@ + self.id + "/"@ + self.avatar_hash + (
        if self.avatar_is_animated() {
            ".webp?size=64"@
        } else {
            ".png?size=64"@
        })
    }

    /// The file the fetched avatar is written to.
    pub open spec fn avatar_file(self) -> Seq<char> {
        "./assets/avatars/"@ + self.id + "_"@ + self.avatar_hash + (if self.avatar_is_animated() {
            ".gif"@
        } else {
            ".png"@
        })
    }
}

impl View for User {
    type V = UserView;

    open spec fn view(&self) -> UserView {
        UserView {
            id: self.id@,
            username: self.username@,
            global_name: self.global_name@,
            avatar_hash: self.avatar_hash@,
        }
    }
}

/// An image to fetch and the file to keep it in.
#[derive(Debug, Clone, PartialEq, Eq)]
pub struct AssetDownload {
    pub url: String,
    pub file_path: String,
}

impl User {
    pub fn display_name(&self) -> (name: &str)
        ensures
            name@ == self@.display_name(),
    {
        if !self.global_name.as_str().is_empty() {
            self.global_name.as_str()
        } else {
            self.username.as_str()
        }
    }

    pub fn local_avatar_path(&self) -> (path: String)
        ensures
            path@ == self@.local_avatar_path(),
    {
        let mut path = "./assets/avatars/".to_owned();
        path.append(self.id.as_str());
        path.append("_");
        path.append(self.avatar_hash.as_str());
        path.append(".png");
        path
    }

    /// What to fetch for this account's avatar, and where to store it. There
    /// is nothing to fetch for an account without an id or without an avatar.
    pub fn avatar_download(&self) -> (download: Option<AssetDownload>)
        ensures
            download is Some <==> self@.id.len() > 0 && self@.avatar_hash.len() > 0,
            download matches Some(d) ==> d.url@ == self@.avatar_url() && d.file_path@
                == self@.avatar_file(),
    {
        if self.id.as_str().is_empty() || self.avatar_hash.as_str().is_empty() {
            return None;
        }
        let animated = starts_with(self.avatar_hash.as_str(), "a_");
        let mut url = "https://cdn.discordapp.com/avatars/".to_owned();
        url.append(self.id.as_str());
        url.append("/");
        url.append(self.avatar_hash.as_str());
        let mut file_path = "./assets/avatars/".to_owned();
        file_path.append(self.id.as_str());
        file_path.append("_");
        file_path.append(self.avatar_hash.as_str());
        if animated {
            url.append(".webp?size=64");
            file_path.append(".gif");
        } else {
            url.append(".png?size=64");
            file_path.append(".png");
        }
        Some(AssetDownload { url, file_path })
    }
}

/// Whether a conversation is between two accounts or among a group.
#[derive(Debug, Clone, PartialEq, Eq)]
pub enum ChannelType {
    Private,
    Group,
}

/// A direct or group conversation.
#[derive(Debug, Clone)]
pub struct PrivateChannel {
    pub id: String,
    pub channel_type: ChannelType,
    pub name: String,
    pub recipients: Vec<User>,
    /// The id of the last message sent, or else the id of the conversation
    /// itself: the key by which conversations are ordered.
    pub sort_id: u64,
    pub icon_hash: String,
}

/// The mathematical value of a [`PrivateChannel`].
pub struct ChannelView {
    pub id: Seq<char>,
    pub channel_type: ChannelType,
    pub name: Seq<char>,
    pub recipients: Seq<UserView>,
    pub sort_id: u64,
    pub icon_hash: Seq<char>,
}

/// The values of a sequence of users, element by element.
pub open spec fn user_views(users: Seq<User>) -> Seq<UserView> {
    Seq::new(users.len(), |i: int| users[i]@)
}

/// The display names of the given accounts, separated by a comma and a space.
pub open spec fn joined_names(users: Seq<UserView>) -> Seq<char>
    decreases users.len(),
{
    if users.len() == 0 {
        Seq::empty()
    } else if users.len() == 1 {
        users[0].display_name()
    } else {
        joined_names(users.drop_last()) + ", "@ + users.last().display_name()
    }
}

impl ChannelView {
    /// The name to show: the conversation's own name where it has one, else
    /// the names of its recipients, else a placeholder.
    pub open spec fn display_name(self) -> Seq<char> {
        if self.name.len() > 0 {
            self.name
        } else if self.recipients.len() == 0 {
            "<no recipients>"@
        } else {
            joined_names(self.recipients)
        }
    }

    /// Where the conversation's icon is kept on disk.
    pub open spec fn local_icon_path(self) -> Seq<char> {
        "./assets/channel_icons/"@ + decimal(self.sort_id as nat) + "_"@ + self.icon_hash
            + ".png"@
    }

    /// Whether the icon is an animated one.
    pub open spec fn icon_is_animated(self) -> bool {
        begins_with(self.icon_hash, "a_"@)
    }

    /// The address the icon is fetched from.
    pub open spec fn icon_url(self) -> Seq<char> {
        "https://cdn.discordapp.com/channel-icons/"@ + self.id + "/"@ + self.icon_hash + (
        if self.icon_is_animated() {
            ".webp?size=64"@
        } else {
            ".png?size=64"@
        })
    }

    /// The file the fetched icon is written to.
    pub open spec fn icon_file(self) -> Seq<char> {
        "./assets/channel_icons/"@ + decimal(self.sort_id as nat) + "_"@ + self.icon_hash + (
        if self.icon_is_animated() {
            ".gif"@
        } else {
            ".png"@
        })
    }
}

impl View for PrivateChannel {
    type V = ChannelView;

    open spec fn view(&self) -> ChannelView {
        ChannelView {
            id: self.id@,
            channel_type: self.channel_type,
            name: self.name@,
            recipients: user_views(self.recipients@),
            sort_id: self.sort_id,
            icon_hash: self.icon_hash@,
        }
    }
}

impl PrivateChannel {
    pub fn display_name(&self) -> (name: String)
        ensures
            name@ == self@.display_name(),
    {
        if !self.name.as_str().is_empty() {
            return self.name.clone();
        }
        let n = self.recipients.len();
        if n == 0 {
            return "<no recipients>".to_owned();
        }
        let ghost users = user_views(self.recipients@);
        let mut name = self.recipients[0].display_name().to_owned();
        assert(users.subrange(0, 1).len() == 1);
        let mut i: usize = 1;
        while i < n
            invariant
                1 <= i <= n,
                n == self.recipients@.len(),
                users == user_views(self.recipients@),
                name@ == joined_names(users.subrange(0, i as int)),
            decreases n - i,
        {
            name.append(", ");
            name.append(self.recipients[i].display_name());
            proof {
                let longer = users.subrange(0, i + 1);
                assert(longer.drop_last() =~= users.subrange(0, i as int));
                assert(longer.last() == self.recipients@[i as int]@);
            }
            i = i + 1;
        }
        assert(users.subrange(0, n as int) =~= users);
        name
    }

    pub fn local_icon_path(&self) -> (path: String)
        ensures
            path@ == self@.local_icon_path(),
    {
        let mut path = "./assets/channel_icons/".to_owned();
        path.append(decimal_text(self.sort_id).as_str());
        path.append("_");
        path.append(self.icon_hash.as_str());
        path.append(".png");
        path
    }

    /// What to fetch for this conversation's icon, and where to store it.
    /// There is nothing to fetch for a conversation without an icon.
    pub fn icon_download(&self) -> (download: Option<AssetDownload>)
        ensures
            download is Some <==> self@.icon_hash.len() > 0,
            download matches Some(d) ==> d.url@ == self@.icon_url() && d.file_path@
                == self@.icon_file(),
    {
        if self.icon_hash.as_str().is_empty() {
            return None;
        }
        let animated = starts_with(self.icon_hash.as_str(), "a_");
        let mut url = "https://cdn.discordapp.com/channel-icons/".to_owned();
        url.append(self.id.as_str());
        url.append("/");
        url.append(self.icon_hash.as_str());
        let mut file_path = "./assets/channel_icons/".to_owned();
        file_path.append(decimal_text(self.sort_id).as_str());
        file_path.append("_");
        file_path.append(self.icon_hash.as_str());
        if animated {
            url.append(".webp?size=64");
            file_path.append(".gif");
        } else {
            url.append(".png?size=64");
            file_path.append(".png");
        }
        Some(AssetDownload { url, file_path })
    }
}

/// A server the account has joined.
#[derive(Debug, Clone)]
pub struct Guild {
    pub name: String,
}

/// The mathematical value of a [`Guild`].
pub struct GuildView {
    pub name: Seq<char>,
}

impl View for Guild {
    type V = GuildView;

    open spec fn view(&self) -> GuildView {
        GuildView { name: self.name@ }
    }
}

/// The values of a sequence of conversations, element by element.
pub open spec fn channel_views(channels: Seq<PrivateChannel>) -> Seq<ChannelView> {
    Seq::new(channels.len(), |i: int| channels[i]@)
}

/// The values of a sequence of servers, element by element.
pub open spec fn guild_views(guilds: Seq<Guild>) -> Seq<GuildView> {
    Seq::new(guilds.len(), |i: int| guilds[i]@)
}

/// The value of an account that may be absent.
pub open spec fn identity_view(user: Option<User>) -> Option<UserView> {
    match user {
        Some(u) => Some(u@),
        None => None,
    }
}

/// Everything the session mirrors.
#[derive(Debug)]
pub struct AppData {
    pub current_user: Option<User>,
    pub private_channels: Vec<PrivateChannel>,
    pub guilds: Vec<Guild>,
}

/// The mathematical value of an [`AppData`].
pub struct AppDataView {
    pub current_user: Option<UserView>,
    pub private_channels: Seq<ChannelView>,
    pub guilds: Seq<GuildView>,
}

impl View for AppData {
    type V = AppDataView;

    open spec fn view(&self) -> AppDataView {
        AppDataView {
            current_user: identity_view(self.current_user),
            private_channels: channel_views(self.private_channels@),
            guilds: guild_views(self.guilds@),
        }
    }
}

impl Default for AppData {
    /// The mirror before anything was received: nobody signed in, no
    /// conversations, no servers.
    fn default() -> (data: Self)
        ensures
            data@ == (AppDataView {
                current_user: None,
                private_channels: Seq::empty(),
                guilds: Seq::empty(),
            }),
    {
        let data = AppData { current_user: None, private_channels: Vec::new(), guilds: Vec::new() };
        assert(data@.private_channels =~= Seq::empty());
        assert(data@.guilds =~= Seq::empty());
        data
    }
}

} // verus!
