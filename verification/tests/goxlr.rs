use goxlr_volume_wheel::goxlr::{
    connect, connection_end, handle_incoming, read_volumes, run_client, set_volume_request, status_request,
    step_volume, volume_told, wait_for_status, Client, DropReason, Incoming, Session, SessionEnd,
    StatusReply,
};
use goxlr_volume_wheel::hook::VolumeEvent;
use serde_json::Value;

fn json(text: &str) -> Value {
    serde_json::from_str(text).unwrap()
}

fn status() -> Value {
    json(
        r#"{"Status":{"mixers":{
            "S2":{"levels":{"volumes":{"Game":1}}},
            "S1":{"levels":{"volumes":{"Game":200,"Chat":300,"Mic":-4,"Music":1.5,"System":"x","Console":4294967296}}}
        }}}"#,
    )
}

fn patch(path: &str, value: &str) -> Value {
    json(&format!(
        r#"{{"Patch":[{{"op":"replace","path":"{}","value":{}}}]}}"#,
        path, value
    ))
}

fn session() -> Client {
    let (mut client, _) = connect();
    assert_eq!(client.on_incoming(Incoming::Data(&status())), None);
    client
}

fn volume(s: &Session, channel: &str) -> Option<i32> {
    s.volumes.get(channel).copied()
}

#[test]
fn requests_are_framed() {
    assert_eq!(status_request(1), r#"{"id":1,"data":"GetStatus"}"#);
    assert_eq!(
        set_volume_request(2, "S1", "Game", 133),
        r#"{"id":2,"data":{"Command":["S1",{"SetVolume":["Game",133]}]}}"#
    );
}

#[test]
fn strings_in_requests_are_escaped() {
    assert_eq!(
        set_volume_request(7, "a\"b\\c", "\n\t\u{8}\u{c}\r\u{1}\u{1f}é", 0),
        r#"{"id":7,"data":{"Command":["a\"b\\c",{"SetVolume":["\n\t\b\f\r\u0001\u001fé",0]}]}}"#
    );
}

#[test]
fn requests_are_json() {
    let serial = "quote \" back \\ bell \u{7} del \u{7f} é 🎚";
    let v = json(&set_volume_request(u64::MAX, serial, "Chat", 255));
    assert_eq!(v.get("id").and_then(|i| i.as_u64()), Some(u64::MAX));
    let command = v.pointer("/data/Command").unwrap();
    assert_eq!(command.get(0).and_then(|s| s.as_str()), Some(serial));
    assert_eq!(
        command.pointer("/1/SetVolume/0").and_then(|s| s.as_str()),
        Some("Chat")
    );
    assert_eq!(
        command.pointer("/1/SetVolume/1").and_then(|n| n.as_i64()),
        Some(255)
    );
}

#[test]
fn steps_are_five_and_stop_at_the_ends() {
    assert_eq!(step_volume(128, VolumeEvent::Up), 133);
    assert_eq!(step_volume(128, VolumeEvent::Down), 123);
    assert_eq!(step_volume(252, VolumeEvent::Up), 255);
    assert_eq!(step_volume(255, VolumeEvent::Up), 255);
    assert_eq!(step_volume(3, VolumeEvent::Down), 0);
    assert_eq!(step_volume(0, VolumeEvent::Down), 0);
}

#[test]
fn a_step_up_and_one_down_cancel_out() {
    for v in 0..=250 {
        assert_eq!(step_volume(step_volume(v, VolumeEvent::Up), VolumeEvent::Down), v);
    }
    assert_eq!(step_volume(step_volume(252, VolumeEvent::Up), VolumeEvent::Down), 250);
}

#[test]
fn told_volumes_are_cut_to_32_bits_and_clamped() {
    assert_eq!(volume_told(200), 200);
    assert_eq!(volume_told(256), 255);
    assert_eq!(volume_told(-1), 0);
    assert_eq!(volume_told(0x1_0000_0000), 0);
    assert_eq!(volume_told(0x1_0000_0007), 7);
    assert_eq!(volume_told(0x8000_0000), 0);
    assert_eq!(volume_told(i64::MAX), 0);
}

#[test]
fn status_gives_the_first_mixer_and_its_whole_numbers() {
    match wait_for_status(&status()) {
        StatusReply::Mixer(serial, volumes) => {
            assert_eq!(serial, "S1");
            assert_eq!(volumes.get("Game"), Some(&200));
            assert_eq!(volumes.get("Chat"), Some(&255));
            assert_eq!(volumes.get("Mic"), Some(&0));
            assert_eq!(volumes.get("Console"), Some(&0));
            assert_eq!(volumes.get("Music"), None);
            assert_eq!(volumes.get("System"), None);
        }
        _ => panic!("no mixer"),
    }
}

#[test]
fn other_reports_are_waited_out() {
    for text in [
        r#""Ok""#,
        r#"{"Patch":[]}"#,
        r#"{"Status":{}}"#,
        r#"{"Status":{"mixers":[]}}"#,
        r#"{"Status":null}"#,
    ] {
        assert!(matches!(wait_for_status(&json(text)), StatusReply::Other));
    }
}

#[test]
fn status_without_a_mixer_is_told() {
    let data = json(r#"{"Status":{"mixers":{}}}"#);
    assert!(matches!(wait_for_status(&data), StatusReply::NoMixer));
    let (mut client, _) = connect();
    assert_eq!(
        client.on_incoming(Incoming::Data(&data)),
        Some(DropReason::NoMixer)
    );
    assert!(!client.is_connected());
}

#[test]
fn mixer_without_volumes_has_none() {
    for text in ["{}", r#"{"levels":{}}"#, r#"{"levels":{"volumes":3}}"#, "[]"] {
        let volumes = read_volumes(&json(text));
        assert_eq!(volumes.get("Game"), None);
    }
}

#[test]
fn patches_for_the_mixer_are_followed() {
    let mut client = session();
    let p = patch("/mixers/S1/levels/volumes/Game", "77");
    assert_eq!(client.on_incoming(Incoming::Data(&p)), None);
    assert_eq!(volume(client.session.as_ref().unwrap(), "Game"), Some(77));
    let p = patch("/mixers/S1/levels/volumes/Music", "999");
    client.on_incoming(Incoming::Data(&p));
    assert_eq!(volume(client.session.as_ref().unwrap(), "Music"), Some(255));
    assert_eq!(volume(client.session.as_ref().unwrap(), "Game"), Some(77));
}

#[test]
fn other_patches_change_nothing() {
    let mut client = session();
    for p in [
        patch("/mixers/S2/levels/volumes/Game", "77"),
        patch("/mixers/S1/levels/bleep", "77"),
        patch("/mixers/S1/levels/volumes/Game", "\"77\""),
        json(r#"{"Patch":[{"value":1},{"path":3,"value":1},{"path":"/mixers/S1/levels/volumes/Game"},4]}"#),
        json(r#"{"Patch":7}"#),
        json("null"),
    ] {
        assert_eq!(client.on_incoming(Incoming::Data(&p)), None);
        assert_eq!(volume(client.session.as_ref().unwrap(), "Game"), Some(200));
    }
}

#[test]
fn the_last_patch_for_a_channel_counts() {
    let mut client = session();
    let session = client.session.as_mut().unwrap();
    let p = json(
        r#"{"Patch":[
            {"path":"/mixers/S1/levels/volumes/Game","value":10},
            {"path":"/mixers/S1/levels/volumes/Chat","value":20},
            {"path":"/mixers/S1/levels/volumes/Game","value":30}
        ]}"#,
    );
    handle_incoming(&p, "S1", &mut session.volumes);
    assert_eq!(volume(session, "Game"), Some(30));
    assert_eq!(volume(session, "Chat"), Some(20));
}

#[test]
fn patches_for_other_channels_may_follow() {
    let mut client = session();
    let p = json(
        r#"{"Patch":[
            {"path":"/mixers/S1/levels/volumes/Game","value":10},
            {"path":"/mixers/S1/levels/volumes/Game","value":"x"},
            {"path":"/mixers/S1/levels/volumes/Chat","value":20},
            {"path":"/mixers/S2/levels/volumes/Game","value":30}
        ]}"#,
    );
    client.on_incoming(Incoming::Data(&p));
    assert_eq!(volume(client.session.as_ref().unwrap(), "Game"), Some(10));
}

#[test]
fn steps_and_reports_follow_each_other() {
    let mut client = session();
    let sent = |client: &mut Client, event| {
        client.session.as_mut().unwrap().on_volume_event(event, "Game")
    };
    assert!(sent(&mut client, VolumeEvent::Up).unwrap().contains("205"));
    let p = patch("/mixers/S1/levels/volumes/Game", "253");
    client.on_incoming(Incoming::Data(&p));
    assert!(sent(&mut client, VolumeEvent::Up).unwrap().contains("255"));
    assert_eq!(sent(&mut client, VolumeEvent::Up), None);
    assert!(sent(&mut client, VolumeEvent::Down).unwrap().contains("250"));
    assert_eq!(volume(client.session.as_ref().unwrap(), "Chat"), Some(255));
}

#[test]
fn identifiers_start_over_after_the_largest() {
    let mut client = session();
    let session = client.session.as_mut().unwrap();
    session.next_id = u64::MAX;
    assert_eq!(
        session.on_volume_event(VolumeEvent::Up, "Game").as_deref(),
        Some(r#"{"id":18446744073709551615,"data":{"Command":["S1",{"SetVolume":["Game",205]}]}}"#)
    );
    assert_eq!(session.next_id, 0);
}

#[test]
fn a_step_is_sent_and_remembered() {
    let mut client = session();
    let session = client.session.as_mut().unwrap();
    assert_eq!(
        session.on_volume_event(VolumeEvent::Up, "Game").as_deref(),
        Some(r#"{"id":2,"data":{"Command":["S1",{"SetVolume":["Game",205]}]}}"#)
    );
    assert_eq!(
        session.on_volume_event(VolumeEvent::Down, "Game").as_deref(),
        Some(r#"{"id":3,"data":{"Command":["S1",{"SetVolume":["Game",200]}]}}"#)
    );
    assert_eq!(volume(session, "Game"), Some(200));
    assert_eq!(session.next_id, 4);
}

#[test]
fn the_echo_of_a_step_changes_nothing() {
    let mut client = session();
    client
        .session
        .as_mut()
        .unwrap()
        .on_volume_event(VolumeEvent::Up, "Game");
    let echo = patch("/mixers/S1/levels/volumes/Game", "205");
    client.on_incoming(Incoming::Data(&echo));
    let session = client.session.as_ref().unwrap();
    assert_eq!(volume(session, "Game"), Some(205));
    assert_eq!(volume(session, "Chat"), Some(255));
    assert_eq!(session.next_id, 3);
}

#[test]
fn a_step_at_the_end_is_not_sent() {
    let mut client = session();
    let session = client.session.as_mut().unwrap();
    assert_eq!(session.on_volume_event(VolumeEvent::Up, "Chat"), None);
    assert_eq!(session.on_volume_event(VolumeEvent::Down, "Mic"), None);
    assert_eq!(session.next_id, 2);
}

#[test]
fn an_unknown_channel_starts_from_the_middle() {
    let mut client = session();
    let session = client.session.as_mut().unwrap();
    assert_eq!(
        session.on_volume_event(VolumeEvent::Down, "Headphones").as_deref(),
        Some(r#"{"id":2,"data":{"Command":["S1",{"SetVolume":["Headphones",123]}]}}"#)
    );
    assert_eq!(volume(session, "Headphones"), Some(123));
}

#[test]
fn a_connection_opens_with_the_status() {
    let (mut client, request) = connect();
    assert_eq!(request, r#"{"id":1,"data":"GetStatus"}"#);
    assert!(!client.is_connected());
    assert_eq!(client.on_incoming(Incoming::Ignored), None);
    let other = json(r#""Ok""#);
    assert_eq!(client.on_incoming(Incoming::Data(&other)), None);
    assert!(!client.is_connected());
    assert_eq!(client.on_incoming(Incoming::Data(&status())), None);
    assert!(client.is_connected());
    let session = client.session.as_ref().unwrap();
    assert_eq!(session.serial, "S1");
    assert_eq!(session.next_id, 2);
}

#[test]
fn trouble_ends_a_connection() {
    let (mut client, _) = connect();
    assert_eq!(
        client.on_incoming(Incoming::Closed),
        Some(DropReason::ClosedBeforeStatus)
    );
    assert_eq!(client.on_incoming(Incoming::Failed), Some(DropReason::Failed));
    assert_eq!(
        client.on_incoming(Incoming::Malformed),
        Some(DropReason::Malformed)
    );
    let mut client = session();
    assert_eq!(client.on_incoming(Incoming::Closed), Some(DropReason::Closed));
    assert_eq!(client.on_incoming(Incoming::Ignored), None);
    assert_eq!(
        client.on_incoming(Incoming::Malformed),
        Some(DropReason::Malformed)
    );
}

#[test]
fn a_dropped_connection_is_tried_again() {
    assert_eq!(run_client(SessionEnd::Dropped), Some(3000));
    assert_eq!(run_client(SessionEnd::EventsClosed), None);
}

#[test]
fn a_connection_ends_well_only_after_the_status() {
    let (waiting, _) = connect();
    let running = session();
    assert_eq!(connection_end(&waiting, None, false), None);
    assert_eq!(connection_end(&waiting, None, true), None);
    assert_eq!(connection_end(&running, None, false), None);
    assert_eq!(connection_end(&running, None, true), Some(SessionEnd::EventsClosed));
    for closed in [false, true] {
        assert_eq!(
            connection_end(&running, Some(DropReason::Closed), closed),
            Some(SessionEnd::Dropped)
        );
        assert_eq!(
            connection_end(&waiting, Some(DropReason::NoMixer), closed),
            Some(SessionEnd::Dropped)
        );
    }
}
