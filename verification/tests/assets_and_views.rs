use gateway_session::api::profile_url;
use gateway_session::assets::{load_private_channel_avatars, unique_recipients};
use gateway_session::state::{AppData, ChannelType, Guild, PrivateChannel, User};
use gateway_session::ui::{private_channel_avatar_paths, private_channel_names, visible_name};

fn user(id: &str, username: &str, avatar_hash: &str) -> User {
    User {
        id: id.to_string(),
        username: username.to_string(),
        global_name: String::new(),
        avatar_hash: avatar_hash.to_string(),
    }
}

fn channel(id: &str, icon_hash: &str, recipients: Vec<User>) -> PrivateChannel {
    PrivateChannel {
        id: id.to_string(),
        channel_type: ChannelType::Group,
        name: String::new(),
        recipients,
        sort_id: 5,
        icon_hash: icon_hash.to_string(),
    }
}

fn sample() -> AppData {
    AppData {
        current_user: Some(user("1", "me", "")),
        private_channels: vec![
            channel("10", "", vec![user("2", "bob", "h2"), user("3", "eve", "")]),
            channel("11", "a_ic", vec![user("3", "eve-again", "h3"), user("2", "bob", "h2")]),
            channel("12", "ic", Vec::new()),
            channel("13", "", vec![user("4", "dan", "a_h4"), user("", "ghost", "h5")]),
        ],
        guilds: vec![Guild { name: "G".to_string() }],
    }
}

#[test]
fn unique_recipients_keeps_the_first_of_each_id() {
    let data = sample();
    let users = unique_recipients(&data.private_channels);
    let seen: Vec<(String, String)> =
        users.iter().map(|u| (u.id.clone(), u.username.clone())).collect();
    let expected: Vec<(String, String)> =
        [("2", "bob"), ("3", "eve"), ("4", "dan"), ("", "ghost")]
            .iter()
            .map(|(a, b)| (a.to_string(), b.to_string()))
            .collect();
    assert_eq!(seen, expected);
    assert!(unique_recipients(&Vec::new()).is_empty());
}

#[test]
fn downloads_are_avatars_then_icons() {
    let data = sample();
    let urls: Vec<String> =
        load_private_channel_avatars(&data).into_iter().map(|d| d.url).collect();
    let expected: Vec<String> = [
        "https://cdn.discordapp.com/avatars/2/h2.png?size=64",
        "https://cdn.discordapp.com/avatars/4/a_h4.webp?size=64",
        "https://cdn.discordapp.com/channel-icons/11/a_ic.webp?size=64",
        "https://cdn.discordapp.com/channel-icons/12/ic.png?size=64",
    ]
    .iter()
    .map(|s| s.to_string())
    .collect();
    assert_eq!(urls, expected);
    let files: Vec<String> =
        load_private_channel_avatars(&data).into_iter().map(|d| d.file_path).collect();
    let expected_files: Vec<String> = [
        "./assets/avatars/2_h2.png",
        "./assets/avatars/4_a_h4.gif",
        "./assets/channel_icons/5_a_ic.gif",
        "./assets/channel_icons/5_ic.png",
    ]
    .iter()
    .map(|s| s.to_string())
    .collect();
    assert_eq!(files, expected_files);
    assert!(load_private_channel_avatars(&AppData::default()).is_empty());
}

#[test]
fn profile_url_names_the_account() {
    assert_eq!(
        profile_url("545218808806375439"),
        "https://discord.com/api/v9/users/545218808806375439/profile?with_mutual_guilds=false&with_mutual_friends=false&with_mutual_friends_count=false"
    );
}

#[test]
fn visible_name_of_the_signed_in_account() {
    let mut data = sample();
    assert_eq!(visible_name(&data), "me");
    data.current_user.as_mut().unwrap().global_name = "Me Myself".to_string();
    assert_eq!(visible_name(&data), "Me Myself");
    data.current_user = None;
    assert_eq!(visible_name(&data), "<display_name>");
}

#[test]
fn names_and_avatars_of_the_conversations() {
    let mut data = sample();
    data.private_channels[3].name = "Night shift".to_string();
    let names = private_channel_names(&data);
    let expected: Vec<String> = ["bob, eve", "eve-again, bob", "<no recipients>", "Night shift"]
        .iter()
        .map(|s| s.to_string())
        .collect();
    assert_eq!(names, expected);
    let paths = private_channel_avatar_paths(&data);
    assert_eq!(
        paths,
        vec![
            Some("./assets/avatars/2_h2.png".to_string()),
            Some("./assets/avatars/3_h3.png".to_string()),
            None,
            Some("./assets/avatars/4_a_h4.png".to_string()),
        ]
    );
    assert!(private_channel_names(&AppData::default()).is_empty());
    assert!(private_channel_avatar_paths(&AppData::default()).is_empty());
}
