//! What a window shows of the read model: the name of the signed-in account
//! and, for each conversation, its name and the avatar that stands for it.

use crate::state::{AppData, AppDataView};
use vstd::prelude::*;

verus! {

/// The name shown for the signed-in account; a placeholder while nobody is.
pub open spec fn shown_name(data: AppDataView) -> Seq<char> {
    match data.current_user {
        Some(user) => user.display_name(),
        None => "<display_name>"@,
    }
}

/// The name shown for each conversation, in the order of the conversations.
pub open spec fn shown_channel_names(data: AppDataView) -> Seq<Seq<char>> {
    Seq::new(data.private_channels.len(), |i: int| data.private_channels[i].display_name())
}

/// For each conversation, the file with the avatar of its first recipient;
/// none for a conversation without recipients.
pub open spec fn shown_avatar_paths(data: AppDataView) -> Seq<Option<Seq<char>>> {
    Seq::new(
        data.private_channels.len(),
        |i: int|
            if data.private_channels[i].recipients.len() > 0 {
                Some(data.private_channels[i].recipients[0].local_avatar_path())
            } else {
                None
            },
    )
}

/// The characters of each text, element by element.
pub open spec fn text_views(texts: Seq<String>) -> Seq<Seq<char>> {
    Seq::new(texts.len(), |i: int| texts[i]@)
}

/// The characters of each text that is there, element by element.
pub open spec fn optional_text_views(texts: Seq<Option<String>>) -> Seq<Option<Seq<char>>> {
    Seq::new(
        texts.len(),
        |i: int|
            match texts[i] {
                Some(text) => Some(text@),
                None => None,
            },
    )
}

/// The name to show for the signed-in account.
pub fn visible_name(app_data: &AppData) -> (name: String)
    ensures
        name@ == shown_name(app_data@),
{
    match &app_data.current_user {
        Some(user) => user.display_name().to_owned(),
        None => "<display_name>".to_owned(),
    }
}

/// The names to show for the conversations.
pub fn private_channel_names(app_data: &AppData) -> (names: Vec<String>)
    ensures
        text_views(names@) == shown_channel_names(app_data@),
{
    let mut names: Vec<String> = Vec::new();
    let n = app_data.private_channels.len();
    let mut i: usize = 0;
    while i < n
        invariant
            i <= n,
            n == app_data.private_channels@.len(),
            names@.len() == i,
            forall|k: int|
                0 <= k < i ==> (#[trigger] names@[k])@
                    == app_data.private_channels@[k]@.display_name(),
        decreases n - i,
    {
        let name = app_data.private_channels[i].display_name();
        names.push(name);
        i = i + 1;
    }
    assert(text_views(names@) =~= shown_channel_names(app_data@));
    names
}

/// The avatar files to show for the conversations.
pub fn private_channel_avatar_paths(app_data: &AppData) -> (paths: Vec<Option<String>>)
    ensures
        optional_text_views(paths@) == shown_avatar_paths(app_data@),
{
    let mut paths: Vec<Option<String>> = Vec::new();
    let n = app_data.private_channels.len();
    let mut i: usize = 0;
    while i < n
        invariant
            i <= n,
            n == app_data.private_channels@.len(),
            paths@.len() == i,
            forall|k: int|
                0 <= k < i ==> (#[trigger] optional_text_views(paths@)[k])
                    == shown_avatar_paths(app_data@)[k],
        decreases n - i,
    {
        let channel = &app_data.private_channels[i];
        let path = if channel.recipients.len() > 0 {
            Some(channel.recipients[0].local_avatar_path())
        } else {
            None
        };
        let ghost before = optional_text_views(paths@);
        paths.push(path);
        assert forall|k: int| 0 <= k < i + 1 implies (#[trigger] optional_text_views(paths@)[k])
            == shown_avatar_paths(app_data@)[k] by {
            if k < i {
                assert(optional_text_views(paths@)[k] == before[k]);
            }
        }
        i = i + 1;
    }
    assert(optional_text_views(paths@) =~= shown_avatar_paths(app_data@));
    paths
}

} // verus!
