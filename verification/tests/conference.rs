//! Joining a conference.

use regasi::conference::{
    authentication, focus_jid, log_level, room_jid, Authentication, ConferenceConfig, LogLevel,
};

#[test]
fn verbosity_sets_the_log_level() {
    assert_eq!(log_level(0), LogLevel::Info);
    assert_eq!(log_level(1), LogLevel::Debug);
    assert_eq!(log_level(2), LogLevel::Trace);
    assert_eq!(log_level(255), LogLevel::Trace);
}

#[test]
fn credentials_are_used_where_there_are_any() {
    match authentication(Some("user".to_owned()), Some("word".to_owned())) {
        Authentication::Plain { username, password } => {
            assert_eq!((username.as_str(), password.as_str()), ("user", "word"))
        }
        Authentication::Anonymous => panic!("anonymous"),
    }
    assert!(matches!(authentication(None, None), Authentication::Anonymous));
}

#[test]
fn rooms_are_on_the_conference_domain() {
    assert_eq!(room_jid("room", &None, "example.org"), "room@conference.example.org");
    let domain = Some("muc.example.org".to_owned());
    assert_eq!(room_jid("room", &domain, "example.org"), "room@muc.example.org");
}

#[test]
fn the_focus_is_on_the_authentication_domain() {
    assert_eq!(focus_jid(&None, "example.org"), "focus@auth.example.org/focus");
    let given = Some("focus@example.org".to_owned());
    assert_eq!(focus_jid(&given, "other.org"), "focus@example.org");
}

#[test]
fn the_transcriber_presents_itself() {
    let config = ConferenceConfig::new("room", &None, &None, "example.org", "eu".to_owned());
    assert_eq!(config.muc, "room@conference.example.org");
    assert_eq!(config.focus, "focus@auth.example.org/focus");
    assert_eq!(config.nick, "Transcriber");
    assert_eq!(config.region, "eu");
    assert_eq!(config.video_codec, "vp8");
    assert_eq!(config.extra_muc_features, vec!["http://jitsi.org/protocol/jigasi".to_owned()]);
}
