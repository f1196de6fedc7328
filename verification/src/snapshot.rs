//! Decoding the first full-state dispatch into the read model.
//!
//! Decoding is tolerant: a missing or ill-typed field takes a default, an
//! entry that cannot be used is left out, and nothing here ever fails.

use crate::json::{as_items, as_text, as_unsigned, json_model, member, models_of, JsonModel};
use crate::state::{
    channel_views, guild_views, identity_view, user_views, AppData, AppDataView, ChannelType,
    ChannelView, Guild, GuildView, PrivateChannel, User, UserView,
};
use crate::recency::{
    is_descending, lemma_most_recent_first, most_recent_first, sort_most_recent_first,
};
use crate::text::{parse_u64, parsed_unsigned};
use vstd::prelude::*;

verus! {

/// The member `key` of a frame's payload, the object under `d`.
pub open spec fn payload_member(frame: JsonModel, key: Seq<char>) -> Option<JsonModel> {
    match frame.member("d"@) {
        Some(payload) => payload.member(key),
        None => None,
    }
}

/// The account that a JSON object describes; each absent field is empty.
pub open spec fn user_of(object: JsonModel) -> UserView {
    UserView {
        id: object.text_of("id"@),
        username: object.text_of("username"@),
        global_name: object.text_of("global_name"@),
        avatar_hash: object.text_of("avatar"@),
    }
}

/// The identity in a snapshot frame: the account under `d.user`, if any.
pub open spec fn decoded_identity(frame: JsonModel) -> Option<UserView> {
    match payload_member(frame, "user"@) {
        Some(object) => Some(user_of(object)),
        None => None,
    }
}

/// The server that a JSON object describes.
pub open spec fn guild_of(object: JsonModel) -> GuildView {
    GuildView { name: object.text_of("name"@) }
}

/// The servers that a list of JSON objects describes, one for one.
pub open spec fn guilds_of(objects: Seq<JsonModel>) -> Seq<GuildView> {
    Seq::new(objects.len(), |i: int| guild_of(objects[i]))
}

/// The elements of the array under `d.<key>`; none where there is no array.
pub open spec fn payload_items(frame: JsonModel, key: Seq<char>) -> Seq<JsonModel> {
    match payload_member(frame, key) {
        Some(list) => match list.items() {
            Some(objects) => objects,
            None => Seq::empty(),
        },
        None => Seq::empty(),
    }
}

/// The servers in a snapshot frame: one for each element of `d.guilds`.
pub open spec fn decoded_guilds(frame: JsonModel) -> Seq<GuildView> {
    guilds_of(payload_items(frame, "guilds"@))
}

/// The recipients that a list of JSON objects describes, in order, without
/// those that have neither a username nor a global name.
pub open spec fn recipients_of(objects: Seq<JsonModel>) -> Seq<UserView>
    decreases objects.len(),
{
    if objects.len() == 0 {
        Seq::empty()
    } else {
        let earlier = recipients_of(objects.drop_last());
        let user = user_of(objects.last());
        if user.is_named() {
            earlier.push(user)
        } else {
            earlier
        }
    }
}

/// The kind of a conversation: a group where `type` is 3, private otherwise.
pub open spec fn kind_of(object: JsonModel) -> ChannelType {
    if object.unsigned_of("type"@) == Some(3u64) {
        ChannelType::Group
    } else {
        ChannelType::Private
    }
}

/// The number that the string under `key` denotes, if it denotes one.
pub open spec fn number_text_of(object: JsonModel, key: Seq<char>) -> Option<u64> {
    match object.member(key) {
        Some(found) => match found.text() {
            Some(chars) => parsed_unsigned(chars),
            None => None,
        },
        None => None,
    }
}

/// The key a conversation is ordered by: the id of its last message, else its
/// own id, else 0; an id that is not a number counts as absent.
pub open spec fn sort_key_of(object: JsonModel) -> u64 {
    match number_text_of(object, "last_message_id"@) {
        Some(n) => n,
        None => match number_text_of(object, "id"@) {
            Some(n) => n,
            None => 0,
        },
    }
}

/// The conversation that a JSON object describes; none where it has no array
/// of recipients, or where no recipient in it has a name.
pub open spec fn channel_of(object: JsonModel) -> Option<ChannelView> {
    match object.member("recipients"@) {
        Some(list) => match list.items() {
            Some(objects) => if recipients_of(objects).len() > 0 {
                Some(
                    ChannelView {
                        id: object.text_of("id"@),
                        channel_type: kind_of(object),
                        name: object.text_of("name"@),
                        recipients: recipients_of(objects),
                        sort_id: sort_key_of(object),
                        icon_hash: object.text_of("icon"@),
                    },
                )
            } else {
                None
            },
            None => None,
        },
        None => None,
    }
}

/// The conversations that a list of JSON objects describes, in order, without
/// the entries that describe none.
pub open spec fn channels_of(objects: Seq<JsonModel>) -> Seq<ChannelView>
    decreases objects.len(),
{
    if objects.len() == 0 {
        Seq::empty()
    } else {
        let earlier = channels_of(objects.drop_last());
        match channel_of(objects.last()) {
            Some(channel) => earlier.push(channel),
            None => earlier,
        }
    }
}

/// The conversations in a snapshot frame, in the order of `d.private_channels`.
pub open spec fn decoded_channels(frame: JsonModel) -> Seq<ChannelView> {
    channels_of(payload_items(frame, "private_channels"@))
}

pub(crate) fn text_field(object: &serde_json::Value, key: &str) -> (text: String)
    ensures
        text@ == json_model(*object).text_of(key@),
{
    match member(object, key) {
        Some(found) => match as_text(found) {
            Some(chars) => chars.to_owned(),
            None => String::new(),
        },
        None => String::new(),
    }
}

fn number_text_field(object: &serde_json::Value, key: &str) -> (number: Option<u64>)
    ensures
        number == number_text_of(json_model(*object), key@),
{
    match member(object, key) {
        Some(found) => match as_text(found) {
            Some(chars) => parse_u64(chars),
            None => None,
        },
        None => None,
    }
}

fn payload_field<'a>(frame: &'a serde_json::Value, key: &str) -> (found: Option<
    &'a serde_json::Value,
>)
    ensures
        match found {
            Some(inner) => payload_member(json_model(*frame), key@) == Some(json_model(*inner)),
            None => payload_member(json_model(*frame), key@) is None,
        },
{
    match member(frame, "d") {
        Some(payload) => member(payload, key),
        None => None,
    }
}

fn user_from(object: &serde_json::Value) -> (user: User)
    ensures
        user@ == user_of(json_model(*object)),
{
    User {
        id: text_field(object, "id"),
        username: text_field(object, "username"),
        global_name: text_field(object, "global_name"),
        avatar_hash: text_field(object, "avatar"),
    }
}

/// Reads the signed-in account from a snapshot frame. A frame without an
/// account yields none; an account without some field has it empty.
pub fn get_client_username(json: &serde_json::Value) -> (user: Option<User>)
    ensures
        identity_view(user) == decoded_identity(json_model(*json)),
{
    match payload_field(json, "user") {
        Some(object) => Some(user_from(object)),
        None => None,
    }
}

/// Reads the joined servers from a snapshot frame: one for each element of
/// the list, with an empty name where the element has none.
pub fn get_guilds(json: &serde_json::Value) -> (guilds: Vec<Guild>)
    ensures
        guild_views(guilds@) == decoded_guilds(json_model(*json)),
{
    let mut guilds: Vec<Guild> = Vec::new();
    let items = match payload_field(json, "guilds") {
        Some(list) => as_items(list),
        None => None,
    };
    match items {
        Some(objects) => {
            let ghost models = models_of(objects@);
            let n = objects.len();
            let mut i: usize = 0;
            while i < n
                invariant
                    i <= n,
                    n == objects@.len(),
                    models == models_of(objects@),
                    guild_views(guilds@) == guilds_of(models.subrange(0, i as int)),
                decreases n - i,
            {
                let ghost before = guild_views(guilds@);
                let guild = Guild { name: text_field(&objects[i], "name") };
                guilds.push(guild);
                proof {
                    assert(models[i as int] == json_model(objects@[i as int]));
                    assert(guild_views(guilds@) =~= before.push(guild@));
                    assert(guilds_of(models.subrange(0, i + 1)) =~= guilds_of(
                        models.subrange(0, i as int),
                    ).push(guild_of(models[i as int])));
                }
                i = i + 1;
            }
            assert(models.subrange(0, n as int) =~= models);
        },
        None => {
            assert(guild_views(guilds@) =~= decoded_guilds(json_model(*json)));
        },
    }
    guilds
}

fn recipients_from(objects: &Vec<serde_json::Value>) -> (users: Vec<User>)
    ensures
        user_views(users@) == recipients_of(models_of(objects@)),
{
    let ghost models = models_of(objects@);
    let mut users: Vec<User> = Vec::new();
    let n = objects.len();
    let mut i: usize = 0;
    assert(user_views(users@) =~= recipients_of(models.subrange(0, 0)));
    while i < n
        invariant
            i <= n,
            n == objects@.len(),
            models == models_of(objects@),
            user_views(users@) == recipients_of(models.subrange(0, i as int)),
        decreases n - i,
    {
        let user = user_from(&objects[i]);
        let ghost before = user_views(users@);
        proof {
            let longer = models.subrange(0, i + 1);
            assert(longer.drop_last() =~= models.subrange(0, i as int));
            assert(longer.last() == json_model(objects@[i as int]));
        }
        if !user.username.as_str().is_empty() || !user.global_name.as_str().is_empty() {
            users.push(user);
            assert(user_views(users@) =~= before.push(user@));
        }
        i = i + 1;
    }
    assert(models.subrange(0, n as int) =~= models);
    users
}

fn channel_from(object: &serde_json::Value) -> (channel: Option<PrivateChannel>)
    ensures
        match channel {
            Some(c) => channel_of(json_model(*object)) == Some(c@),
            None => channel_of(json_model(*object)) is None,
        },
{
    let items = match member(object, "recipients") {
        Some(list) => as_items(list),
        None => None,
    };
    match items {
        Some(objects) => {
            let recipients = recipients_from(objects);
            if recipients.len() == 0 {
                return None;
            }
            let kind = match member(object, "type") {
                Some(found) => as_unsigned(found),
                None => None,
            };
            let channel_type = match kind {
                Some(3) => ChannelType::Group,
                _ => ChannelType::Private,
            };
            let sort_id = match number_text_field(object, "last_message_id") {
                Some(n) => n,
                None => match number_text_field(object, "id") {
                    Some(n) => n,
                    None => 0,
                },
            };
            Some(
                PrivateChannel {
                    id: text_field(object, "id"),
                    channel_type,
                    name: text_field(object, "name"),
                    recipients,
                    sort_id,
                    icon_hash: text_field(object, "icon"),
                },
            )
        },
        None => None,
    }
}

/// Reads the conversations from a snapshot frame, in the order of the list.
/// An entry is left out where it has no list of recipients or where none of
/// its recipients has a name; a recipient without any name is left out of its
/// conversation.
pub fn get_private_channels(json: &serde_json::Value) -> (channels: Vec<PrivateChannel>)
    ensures
        channel_views(channels@) == decoded_channels(json_model(*json)),
{
    let mut channels: Vec<PrivateChannel> = Vec::new();
    let items = match payload_field(json, "private_channels") {
        Some(list) => as_items(list),
        None => None,
    };
    match items {
        Some(objects) => {
            let ghost models = models_of(objects@);
            let n = objects.len();
            let mut i: usize = 0;
            assert(channel_views(channels@) =~= channels_of(models.subrange(0, 0)));
            while i < n
                invariant
                    i <= n,
                    n == objects@.len(),
                    models == models_of(objects@),
                    channel_views(channels@) == channels_of(models.subrange(0, i as int)),
                decreases n - i,
            {
                let ghost before = channel_views(channels@);
                proof {
                    let longer = models.subrange(0, i + 1);
                    assert(longer.drop_last() =~= models.subrange(0, i as int));
                    assert(longer.last() == json_model(objects@[i as int]));
                }
                match channel_from(&objects[i]) {
                    Some(channel) => {
                        channels.push(channel);
                        assert(channel_views(channels@) =~= before.push(channel@));
                    },
                    None => {},
                }
                i = i + 1;
            }
            assert(models.subrange(0, n as int) =~= models);
        },
        None => {
            assert(channel_views(channels@) =~= decoded_channels(json_model(*json)));
        },
    }
    channels
}

/// Every recipient that is decoded has a name: a username or a global name.
pub proof fn lemma_recipients_are_named(objects: Seq<JsonModel>, i: int)
    requires
        0 <= i < recipients_of(objects).len(),
    ensures
        recipients_of(objects)[i].is_named(),
    decreases objects.len(),
{
    if objects.len() > 0 {
        let earlier = recipients_of(objects.drop_last());
        if i < earlier.len() {
            lemma_recipients_are_named(objects.drop_last(), i);
        }
    }
}

/// A recipient object without a username and without a global name adds
/// nothing to the recipients, wherever in the list it stands.
pub proof fn lemma_unnamed_recipient_is_left_out(
    before: Seq<JsonModel>,
    object: JsonModel,
    after: Seq<JsonModel>,
)
    requires
        !user_of(object).is_named(),
    ensures
        recipients_of(before.push(object) + after) == recipients_of(before + after),
    decreases after.len(),
{
    if after.len() == 0 {
        assert(before.push(object) + after =~= before.push(object));
        assert(before + after =~= before);
        assert(before.push(object).drop_last() =~= before);
    } else {
        lemma_unnamed_recipient_is_left_out(before, object, after.drop_last());
        assert((before.push(object) + after).drop_last() =~= before.push(object)
            + after.drop_last());
        assert((before + after).drop_last() =~= before + after.drop_last());
    }
}

/// Every conversation that is decoded has at least one recipient, and each of
/// its recipients has a name.
pub proof fn lemma_channels_have_recipients(objects: Seq<JsonModel>, i: int, j: int)
    requires
        0 <= i < channels_of(objects).len(),
        0 <= j < channels_of(objects)[i].recipients.len(),
    ensures
        channels_of(objects)[i].recipients.len() > 0,
        channels_of(objects)[i].recipients[j].is_named(),
    decreases objects.len(),
{
    if objects.len() > 0 {
        let earlier = channels_of(objects.drop_last());
        if i < earlier.len() {
            lemma_channels_have_recipients(objects.drop_last(), i, j);
        } else {
            let list = objects.last().member("recipients"@)->Some_0.items()->Some_0;
            lemma_recipients_are_named(list, j);
        }
    }
}

/// An entry whose recipients all lack a name, or that has no list of
/// recipients, adds nothing to the conversations.
pub proof fn lemma_empty_channel_is_dropped(before: Seq<JsonModel>, object: JsonModel)
    requires
        channel_of(object) is None,
    ensures
        channels_of(before.push(object)) == channels_of(before),
{
    assert(before.push(object).drop_last() =~= before);
}

/// The read model that a snapshot frame describes: its identity, its
/// conversations with the most recently active first, and its servers.
pub open spec fn snapshot_of(frame: JsonModel) -> AppDataView {
    AppDataView {
        current_user: decoded_identity(frame),
        private_channels: most_recent_first(decoded_channels(frame)),
        guilds: decoded_guilds(frame),
    }
}

/// In the read model of a snapshot no conversation stands before one that
/// was active more recently, and the conversations are exactly those that
/// were decoded, each as often as it was decoded.
pub proof fn lemma_snapshot_is_ordered(frame: JsonModel)
    ensures
        is_descending(snapshot_of(frame).private_channels),
        snapshot_of(frame).private_channels.to_multiset() == decoded_channels(
            frame,
        ).to_multiset(),
{
    lemma_most_recent_first(decoded_channels(frame));
}

/// Replaces the whole read model by what a snapshot frame describes. Nothing
/// of the earlier model is kept, not even the identity where the frame has
/// none.
pub fn load_initial_data(json: &serde_json::Value, app_data: &mut AppData)
    ensures
        final(app_data)@ == snapshot_of(json_model(*json)),
{
    let current_user = get_client_username(json);
    let guilds = get_guilds(json);
    let mut private_channels = get_private_channels(json);
    sort_most_recent_first(&mut private_channels);
    *app_data = AppData { current_user, private_channels, guilds };
}

} // verus!
