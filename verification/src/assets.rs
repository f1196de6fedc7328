//! Which images a read model needs: the avatar of every account that takes
//! part in a conversation, once each, and the icon of every conversation.

use crate::state::{
    channel_views, user_views, AppData, AssetDownload, ChannelView, PrivateChannel, User,
    UserView,
};
use vstd::prelude::*;

verus! {

/// The recipients of all the conversations, one conversation after another.
pub open spec fn all_recipients(channels: Seq<ChannelView>) -> Seq<UserView>
    decreases channels.len(),
{
    if channels.len() == 0 {
        Seq::empty()
    } else {
        all_recipients(channels.drop_last()) + channels.last().recipients
    }
}

/// Whether one of the accounts has the given id.
pub open spec fn knows_id(users: Seq<UserView>, id: Seq<char>) -> bool {
    exists|i: int| 0 <= i < users.len() && (#[trigger] users[i]).id == id
}

/// The accounts without those whose id an earlier account has: the first
/// account of each id, in the order given.
pub open spec fn distinct_by_id(users: Seq<UserView>) -> Seq<UserView>
    decreases users.len(),
{
    if users.len() == 0 {
        Seq::empty()
    } else {
        let earlier = distinct_by_id(users.drop_last());
        if knows_id(users.drop_last(), users.last().id) {
            earlier
        } else {
            earlier.push(users.last())
        }
    }
}

/// Leaving out repeated ids loses no id and adds none.
pub proof fn lemma_distinct_keeps_ids(users: Seq<UserView>, id: Seq<char>)
    ensures
        knows_id(distinct_by_id(users), id) <==> knows_id(users, id),
    decreases users.len(),
{
    if users.len() > 0 {
        let shorter = users.drop_last();
        let earlier = distinct_by_id(shorter);
        let kept = distinct_by_id(users);
        lemma_distinct_keeps_ids(shorter, id);
        lemma_distinct_keeps_ids(shorter, users.last().id);
        if knows_id(users, id) {
            let i = choose|i: int| 0 <= i < users.len() && (#[trigger] users[i]).id == id;
            if i < shorter.len() {
                assert(shorter[i].id == id);
                let k = choose|k: int| 0 <= k < earlier.len() && (#[trigger] earlier[k]).id == id;
                assert(kept[k].id == id);
            } else if knows_id(shorter, id) {
                let k = choose|k: int| 0 <= k < earlier.len() && (#[trigger] earlier[k]).id == id;
                assert(kept[k].id == id);
            } else {
                assert(kept[earlier.len() as int].id == id);
            }
        }
        if knows_id(kept, id) {
            let k = choose|k: int| 0 <= k < kept.len() && (#[trigger] kept[k]).id == id;
            if k < earlier.len() {
                assert(earlier[k].id == id);
                let i = choose|i: int| 0 <= i < shorter.len() && (#[trigger] shorter[i]).id == id;
                assert(users[i].id == id);
            } else {
                assert(users[users.len() - 1].id == id);
            }
        }
    }
}

/// No two of the accounts that are kept share an id.
pub proof fn lemma_distinct_ids_differ(users: Seq<UserView>, i: int, j: int)
    requires
        0 <= i < j < distinct_by_id(users).len(),
    ensures
        distinct_by_id(users)[i].id != distinct_by_id(users)[j].id,
    decreases users.len(),
{
    if users.len() > 0 {
        let shorter = users.drop_last();
        let earlier = distinct_by_id(shorter);
        if j < earlier.len() {
            lemma_distinct_ids_differ(shorter, i, j);
        } else {
            lemma_distinct_keeps_ids(shorter, users.last().id);
            if earlier[i].id == users.last().id {
                assert(knows_id(earlier, users.last().id));
            }
        }
    }
}

fn copy_of(user: &User) -> (copy: User)
    ensures
        copy@ == user@,
{
    User {
        id: user.id.clone(),
        username: user.username.clone(),
        global_name: user.global_name.clone(),
        avatar_hash: user.avatar_hash.clone(),
    }
}

fn holds_id(users: &Vec<User>, id: &String) -> (found: bool)
    ensures
        found == knows_id(user_views(users@), id@),
{
    let n = users.len();
    let mut i: usize = 0;
    while i < n
        invariant
            i <= n,
            n == users@.len(),
            forall|k: int| 0 <= k < i ==> (#[trigger] user_views(users@)[k]).id != id@,
        decreases n - i,
    {
        if users[i].id == *id {
            assert(user_views(users@)[i as int].id == id@);
            return true;
        }
        i = i + 1;
    }
    false
}

/// The accounts that take part in the conversations, each id once, in the
/// order in which they first appear.
pub fn unique_recipients(channels: &Vec<PrivateChannel>) -> (users: Vec<User>)
    ensures
        user_views(users@) == distinct_by_id(all_recipients(channel_views(channels@))),
{
    let ghost views = channel_views(channels@);
    let mut users: Vec<User> = Vec::new();
    let n = channels.len();
    let mut c: usize = 0;
    assert(user_views(users@) =~= distinct_by_id(all_recipients(views.subrange(0, 0))));
    while c < n
        invariant
            c <= n,
            n == channels@.len(),
            views == channel_views(channels@),
            user_views(users@) == distinct_by_id(all_recipients(views.subrange(0, c as int))),
        decreases n - c,
    {
        let recipients = &channels[c].recipients;
        let ghost before = all_recipients(views.subrange(0, c as int));
        let ghost these = views[c as int].recipients;
        let m = recipients.len();
        let mut j: usize = 0;
        assert(before + these.subrange(0, 0) =~= before);
        while j < m
            invariant
                j <= m,
                m == recipients@.len(),
                these == user_views(recipients@),
                user_views(users@) == distinct_by_id(before + these.subrange(0, j as int)),
            decreases m - j,
        {
            let ghost seen = before + these.subrange(0, j as int);
            let ghost kept = user_views(users@);
            proof {
                let longer = before + these.subrange(0, j + 1);
                assert(longer.drop_last() =~= seen);
                assert(longer.last() == recipients@[j as int]@);
                lemma_distinct_keeps_ids(seen, recipients@[j as int]@.id);
            }
            if !holds_id(&users, &recipients[j].id) {
                let copy = copy_of(&recipients[j]);
                users.push(copy);
                assert(user_views(users@) =~= kept.push(copy@));
            }
            j = j + 1;
        }
        proof {
            let longer = views.subrange(0, c + 1);
            assert(longer.drop_last() =~= views.subrange(0, c as int));
            assert(longer.last() == views[c as int]);
            assert(these.subrange(0, m as int) =~= these);
        }
        c = c + 1;
    }
    assert(views.subrange(0, n as int) =~= views);
    users
}

/// The avatars to fetch for the given accounts: one for each account that
/// has an id and an avatar, in the order of the accounts.
pub open spec fn avatars_of(users: Seq<UserView>) -> Seq<(Seq<char>, Seq<char>)>
    decreases users.len(),
{
    if users.len() == 0 {
        Seq::empty()
    } else {
        let earlier = avatars_of(users.drop_last());
        let user = users.last();
        if user.id.len() > 0 && user.avatar_hash.len() > 0 {
            earlier.push((user.avatar_url(), user.avatar_file()))
        } else {
            earlier
        }
    }
}

/// The icons to fetch for the given conversations: one for each conversation
/// that has an icon, in the order of the conversations.
pub open spec fn icons_of(channels: Seq<ChannelView>) -> Seq<(Seq<char>, Seq<char>)>
    decreases channels.len(),
{
    if channels.len() == 0 {
        Seq::empty()
    } else {
        let earlier = icons_of(channels.drop_last());
        let channel = channels.last();
        if channel.icon_hash.len() > 0 {
            earlier.push((channel.icon_url(), channel.icon_file()))
        } else {
            earlier
        }
    }
}

/// The address and the file of each download, element by element.
pub open spec fn download_views(downloads: Seq<AssetDownload>) -> Seq<(Seq<char>, Seq<char>)> {
    Seq::new(downloads.len(), |i: int| (downloads[i].url@, downloads[i].file_path@))
}

/// The images to fetch for a read model, in the order in which to fetch
/// them: first the avatar of each account that takes part in a conversation,
/// each account once; then the icon of each conversation.
pub fn load_private_channel_avatars(app_data: &AppData) -> (downloads: Vec<AssetDownload>)
    ensures
        download_views(downloads@) == avatars_of(
            distinct_by_id(all_recipients(app_data@.private_channels)),
        ) + icons_of(app_data@.private_channels),
{
    let users = unique_recipients(&app_data.private_channels);
    let ghost accounts = user_views(users@);
    let ghost channels = app_data@.private_channels;
    let mut downloads: Vec<AssetDownload> = Vec::new();
    let n = users.len();
    let mut i: usize = 0;
    assert(download_views(downloads@) =~= avatars_of(accounts.subrange(0, 0)));
    while i < n
        invariant
            i <= n,
            n == users@.len(),
            accounts == user_views(users@),
            download_views(downloads@) == avatars_of(accounts.subrange(0, i as int)),
        decreases n - i,
    {
        let ghost before = download_views(downloads@);
        proof {
            let longer = accounts.subrange(0, i + 1);
            assert(longer.drop_last() =~= accounts.subrange(0, i as int));
            assert(longer.last() == users@[i as int]@);
        }
        match users[i].avatar_download() {
            Some(download) => {
                downloads.push(download);
                assert(download_views(downloads@) =~= before.push(
                    (download.url@, download.file_path@),
                ));
            },
            None => {},
        }
        i = i + 1;
    }
    assert(accounts.subrange(0, n as int) =~= accounts);
    let ghost avatars = download_views(downloads@);
    let m = app_data.private_channels.len();
    let mut c: usize = 0;
    assert(download_views(downloads@) =~= avatars + icons_of(channels.subrange(0, 0)));
    while c < m
        invariant
            c <= m,
            m == app_data.private_channels@.len(),
            channels == channel_views(app_data.private_channels@),
            download_views(downloads@) == avatars + icons_of(channels.subrange(0, c as int)),
        decreases m - c,
    {
        let ghost before = download_views(downloads@);
        proof {
            let longer = channels.subrange(0, c + 1);
            assert(longer.drop_last() =~= channels.subrange(0, c as int));
            assert(longer.last() == app_data.private_channels@[c as int]@);
        }
        match app_data.private_channels[c].icon_download() {
            Some(download) => {
                downloads.push(download);
                assert(download_views(downloads@) =~= before.push(
                    (download.url@, download.file_path@),
                ));
            },
            None => {},
        }
        c = c + 1;
    }
    assert(channels.subrange(0, m as int) =~= channels);
    downloads
}

} // verus!
