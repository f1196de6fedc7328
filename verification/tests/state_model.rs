use gateway_session::state::{AppData, AssetDownload, ChannelType, PrivateChannel, User};

fn user(id: &str, username: &str, global_name: &str, avatar_hash: &str) -> User {
    User {
        id: id.to_string(),
        username: username.to_string(),
        global_name: global_name.to_string(),
        avatar_hash: avatar_hash.to_string(),
    }
}

fn channel(name: &str, recipients: Vec<User>) -> PrivateChannel {
    PrivateChannel {
        id: "10".to_string(),
        channel_type: ChannelType::Private,
        name: name.to_string(),
        recipients,
        sort_id: 77,
        icon_hash: String::new(),
    }
}

#[test]
fn user_display_name_prefers_the_global_name() {
    assert_eq!(user("1", "al", "Alice", "").display_name(), "Alice");
}

#[test]
fn user_display_name_falls_back_to_the_username() {
    assert_eq!(user("1", "al", "", "").display_name(), "al");
    assert_eq!(user("1", "", "", "").display_name(), "");
}

#[test]
fn channel_display_name_joins_the_recipients() {
    let c = channel("", vec![user("1", "bob", "Bob", ""), user("2", "al", "", "")]);
    assert_eq!(c.display_name(), "Bob, al");
}

#[test]
fn channel_display_name_of_one_recipient_has_no_separator() {
    let c = channel("", vec![user("1", "bob", "", "")]);
    assert_eq!(c.display_name(), "bob");
}

#[test]
fn channel_display_name_of_three_recipients() {
    let c = channel(
        "",
        vec![user("1", "a", "", ""), user("2", "b", "B", ""), user("3", "c", "", "")],
    );
    assert_eq!(c.display_name(), "a, B, c");
}

#[test]
fn channel_display_name_prefers_its_own_name() {
    let c = channel("Team", vec![user("1", "bob", "Bob", "")]);
    assert_eq!(c.display_name(), "Team");
    assert_eq!(channel("Team", Vec::new()).display_name(), "Team");
}

#[test]
fn channel_display_name_without_recipients_is_the_placeholder() {
    assert_eq!(channel("", Vec::new()).display_name(), "<no recipients>");
}

#[test]
fn local_avatar_path_is_keyed_by_id_and_hash() {
    assert_eq!(user("12", "a", "", "abc").local_avatar_path(), "./assets/avatars/12_abc.png");
    assert_eq!(user("", "a", "", "").local_avatar_path(), "./assets/avatars/_.png");
}

#[test]
fn local_icon_path_is_keyed_by_sort_id_and_hash() {
    let mut c = channel("", Vec::new());
    c.icon_hash = "ff".to_string();
    assert_eq!(c.local_icon_path(), "./assets/channel_icons/77_ff.png");
    c.sort_id = 0;
    assert_eq!(c.local_icon_path(), "./assets/channel_icons/0_ff.png");
}

#[test]
fn avatar_download_of_a_still_image() {
    let expected = AssetDownload {
        url: "https://cdn.discordapp.com/avatars/12/abc.png?size=64".to_string(),
        file_path: "./assets/avatars/12_abc.png".to_string(),
    };
    assert_eq!(user("12", "a", "", "abc").avatar_download(), Some(expected));
}

#[test]
fn avatar_download_of_an_animated_image() {
    let expected = AssetDownload {
        url: "https://cdn.discordapp.com/avatars/12/a_bc.webp?size=64".to_string(),
        file_path: "./assets/avatars/12_a_bc.gif".to_string(),
    };
    assert_eq!(user("12", "a", "", "a_bc").avatar_download(), Some(expected));
}

#[test]
fn avatar_download_needs_id_and_hash() {
    assert_eq!(user("", "a", "", "abc").avatar_download(), None);
    assert_eq!(user("12", "a", "", "").avatar_download(), None);
}

#[test]
fn icon_download_of_a_still_and_an_animated_image() {
    let mut c = channel("", Vec::new());
    assert_eq!(c.icon_download(), None);
    c.icon_hash = "ff".to_string();
    assert_eq!(
        c.icon_download(),
        Some(AssetDownload {
            url: "https://cdn.discordapp.com/channel-icons/10/ff.png?size=64".to_string(),
            file_path: "./assets/channel_icons/77_ff.png".to_string(),
        })
    );
    c.icon_hash = "a_ff".to_string();
    assert_eq!(
        c.icon_download(),
        Some(AssetDownload {
            url: "https://cdn.discordapp.com/channel-icons/10/a_ff.webp?size=64".to_string(),
            file_path: "./assets/channel_icons/77_a_ff.gif".to_string(),
        })
    );
}

#[test]
fn default_app_data_is_empty() {
    let data = AppData::default();
    assert!(data.current_user.is_none());
    assert!(data.private_channels.is_empty());
    assert!(data.guilds.is_empty());
}
