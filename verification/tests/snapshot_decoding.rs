use gateway_session::recency::sort_most_recent_first;
use gateway_session::snapshot::{
    get_client_username, get_guilds, get_private_channels, load_initial_data,
};
use gateway_session::state::{AppData, ChannelType, PrivateChannel, User};

fn json(text: &str) -> serde_json::Value {
    serde_json::from_str(text).unwrap()
}

fn channel_with_key(id: &str, sort_id: u64) -> PrivateChannel {
    PrivateChannel {
        id: id.to_string(),
        channel_type: ChannelType::Private,
        name: String::new(),
        recipients: Vec::new(),
        sort_id,
        icon_hash: String::new(),
    }
}

fn ids(channels: &Vec<PrivateChannel>) -> Vec<String> {
    channels.iter().map(|c| c.id.clone()).collect()
}

fn keys(channels: &Vec<PrivateChannel>) -> Vec<u64> {
    channels.iter().map(|c| c.sort_id).collect()
}

#[test]
fn identity_is_read_from_the_user_object() {
    let frame = json(
        r#"{"d":{"user":{"id":"1","username":"a","global_name":"Ann","avatar":"h"}}}"#,
    );
    let expected = User {
        id: "1".to_string(),
        username: "a".to_string(),
        global_name: "Ann".to_string(),
        avatar_hash: "h".to_string(),
    };
    assert_eq!(get_client_username(&frame), Some(expected));
}

#[test]
fn identity_fields_default_to_empty() {
    let frame = json(r#"{"d":{"user":{"id":7,"global_name":null}}}"#);
    let expected = User {
        id: String::new(),
        username: String::new(),
        global_name: String::new(),
        avatar_hash: String::new(),
    };
    assert_eq!(get_client_username(&frame), Some(expected));
}

#[test]
fn identity_is_absent_without_a_user_object() {
    assert_eq!(get_client_username(&json(r#"{"d":{}}"#)), None);
    assert_eq!(get_client_username(&json(r#"{"op":0}"#)), None);
    assert_eq!(get_client_username(&json(r#"{"d":[1,2]}"#)), None);
    assert_eq!(get_client_username(&json(r#"[]"#)), None);
}

#[test]
fn guilds_keep_only_the_name() {
    let frame = json(r#"{"d":{"guilds":[{"name":"G","id":"5"},{"id":"6"},{"name":3},"x"]}}"#);
    let names: Vec<String> = get_guilds(&frame).into_iter().map(|g| g.name).collect();
    assert_eq!(names, vec!["G".to_string(), String::new(), String::new(), String::new()]);
}

#[test]
fn guilds_are_empty_without_a_list() {
    assert!(get_guilds(&json(r#"{"d":{"guilds":[]}}"#)).is_empty());
    assert!(get_guilds(&json(r#"{"d":{"guilds":{"name":"G"}}}"#)).is_empty());
    assert!(get_guilds(&json(r#"{"d":{}}"#)).is_empty());
    assert!(get_guilds(&json(r#"{}"#)).is_empty());
}

#[test]
fn channel_kind_follows_the_type_field() {
    let frame = json(
        r#"{"d":{"private_channels":[
            {"id":"1","type":1,"recipients":[{"username":"a"}]},
            {"id":"2","type":3,"recipients":[{"username":"a"}]},
            {"id":"3","type":7,"recipients":[{"username":"a"}]},
            {"id":"4","recipients":[{"username":"a"}]},
            {"id":"5","type":"3","recipients":[{"username":"a"}]},
            {"id":"6","type":3,"recipients":[{"username":"a"},{"username":"b"},{"username":"c"}]},
            {"id":"7","type":1,"recipients":[{"username":"a"},{"username":"b"}]}
        ]}}"#,
    );
    let kinds: Vec<ChannelType> =
        get_private_channels(&frame).into_iter().map(|c| c.channel_type).collect();
    assert_eq!(
        kinds,
        vec![
            ChannelType::Private,
            ChannelType::Group,
            ChannelType::Private,
            ChannelType::Private,
            ChannelType::Private,
            ChannelType::Group,
            ChannelType::Private,
        ]
    );
}

#[test]
fn recipient_without_any_name_is_left_out() {
    let frame = json(
        r#"{"d":{"private_channels":[
            {"id":"1","type":3,"recipients":[
                {"id":"2","username":"bob"},
                {"id":"3"},
                {"id":"4","global_name":"","username":""},
                {"id":"5","global_name":"Eve"}
            ]}
        ]}}"#,
    );
    let channels = get_private_channels(&frame);
    assert_eq!(channels.len(), 1);
    let seen: Vec<String> = channels[0].recipients.iter().map(|u| u.id.clone()).collect();
    assert_eq!(seen, vec!["2".to_string(), "5".to_string()]);
    assert_eq!(channels[0].display_name(), "bob, Eve");
}

#[test]
fn channel_without_named_recipients_is_dropped() {
    let frame = json(
        r#"{"d":{"private_channels":[
            {"id":"1","recipients":[{"id":"3"}]},
            {"id":"2","recipients":[]},
            {"id":"3"},
            {"id":"4","recipients":"none"},
            {"id":"5","recipients":[{"username":"kept"}]},
            17
        ]}}"#,
    );
    assert_eq!(ids(&get_private_channels(&frame)), vec!["5".to_string()]);
}

#[test]
fn channels_are_empty_without_a_list() {
    assert!(get_private_channels(&json(r#"{"d":{"private_channels":7}}"#)).is_empty());
    assert!(get_private_channels(&json(r#"{"d":{}}"#)).is_empty());
    assert!(get_private_channels(&json(r#"null"#)).is_empty());
}

#[test]
fn sort_key_is_the_last_message_then_the_id_then_zero() {
    let frame = json(
        r#"{"d":{"private_channels":[
            {"id":"10","last_message_id":"77","recipients":[{"username":"a"}]},
            {"id":"11","recipients":[{"username":"a"}]},
            {"id":"12","last_message_id":null,"recipients":[{"username":"a"}]},
            {"id":"13","last_message_id":"x","recipients":[{"username":"a"}]},
            {"id":"abc","recipients":[{"username":"a"}]},
            {"recipients":[{"username":"a"}]},
            {"id":"14","last_message_id":78,"recipients":[{"username":"a"}]},
            {"id":"15","last_message_id":"18446744073709551616","recipients":[{"username":"a"}]}
        ]}}"#,
    );
    assert_eq!(keys(&get_private_channels(&frame)), vec![77, 11, 12, 13, 0, 0, 14, 15]);
}

#[test]
fn channel_fields_are_read() {
    let frame = json(
        r#"{"d":{"private_channels":[
            {"id":"10","type":3,"name":"Team","icon":"ic","last_message_id":"5",
             "recipients":[{"id":"2","username":"bob","global_name":"Bob","avatar":"av"}]}
        ]}}"#,
    );
    let channels = get_private_channels(&frame);
    assert_eq!(channels.len(), 1);
    let c = &channels[0];
    assert_eq!(c.id, "10");
    assert_eq!(c.channel_type, ChannelType::Group);
    assert_eq!(c.name, "Team");
    assert_eq!(c.icon_hash, "ic");
    assert_eq!(c.sort_id, 5);
    assert_eq!(
        c.recipients,
        vec![User {
            id: "2".to_string(),
            username: "bob".to_string(),
            global_name: "Bob".to_string(),
            avatar_hash: "av".to_string(),
        }]
    );
}

#[test]
fn conversations_are_ordered_most_recent_first() {
    let mut channels =
        vec![channel_with_key("a", 5), channel_with_key("b", 9), channel_with_key("c", 1)];
    sort_most_recent_first(&mut channels);
    assert_eq!(keys(&channels), vec![9, 5, 1]);
    assert_eq!(ids(&channels), vec!["b".to_string(), "a".to_string(), "c".to_string()]);
}

#[test]
fn ordering_keeps_equal_keys_in_place() {
    let mut channels = vec![
        channel_with_key("a", 5),
        channel_with_key("b", 9),
        channel_with_key("c", 5),
        channel_with_key("d", 9),
        channel_with_key("e", 5),
        channel_with_key("f", 0),
        channel_with_key("g", u64::MAX),
    ];
    sort_most_recent_first(&mut channels);
    let expected: Vec<String> =
        ["g", "b", "d", "a", "c", "e", "f"].iter().map(|s| s.to_string()).collect();
    assert_eq!(ids(&channels), expected);
}

#[test]
fn ordering_agrees_with_a_stable_sort() {
    let key_lists: [&[u64]; 5] = [&[], &[3], &[1, 2, 3, 4], &[4, 3, 2, 1], &[2, 7, 2, 7, 1, 7, 2]];
    for list in key_lists.iter() {
        let mut channels: Vec<PrivateChannel> = list
            .iter()
            .enumerate()
            .map(|(i, k)| channel_with_key(&format!("{}", i), *k))
            .collect();
        let mut expected = channels.clone();
        expected.sort_by_key(|c| std::cmp::Reverse(c.sort_id));
        sort_most_recent_first(&mut channels);
        assert_eq!(ids(&channels), ids(&expected));
    }
}

#[test]
fn snapshot_orders_the_conversations() {
    let frame = json(
        r#"{"d":{"private_channels":[
            {"id":"a","last_message_id":"5","recipients":[{"username":"x"}]},
            {"id":"b","last_message_id":"9","recipients":[{"username":"x"}]},
            {"id":"c","last_message_id":"1","recipients":[{"username":"x"}]}
        ]}}"#,
    );
    let mut data = AppData::default();
    load_initial_data(&frame, &mut data);
    assert_eq!(keys(&data.private_channels), vec![9, 5, 1]);
}

#[test]
fn snapshot_replaces_everything() {
    let first = json(
        r#"{"d":{"user":{"id":"1","username":"a"},
            "private_channels":[{"id":"10","recipients":[{"username":"bob"}]}],
            "guilds":[{"name":"G"},{"name":"H"}]}}"#,
    );
    let second = json(r#"{"d":{"guilds":[{"name":"I"}]}}"#);
    let mut data = AppData::default();
    load_initial_data(&first, &mut data);
    assert_eq!(data.current_user.as_ref().map(|u| u.id.clone()), Some("1".to_string()));
    assert_eq!(data.private_channels.len(), 1);
    assert_eq!(data.guilds.len(), 2);
    load_initial_data(&second, &mut data);
    assert!(data.current_user.is_none());
    assert!(data.private_channels.is_empty());
    let names: Vec<String> = data.guilds.iter().map(|g| g.name.clone()).collect();
    assert_eq!(names, vec!["I".to_string()]);
}
