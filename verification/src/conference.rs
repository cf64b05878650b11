//! How a conference is joined.

use vstd::prelude::*;
use vstd::string::StringExecFns;

verus! {

/// How much is logged.
#[derive(Clone, Copy, Debug, PartialEq, Eq, Structural)]
pub enum LogLevel {
    Info,
    Debug,
    Trace,
}

/// How much to log where verbosity was asked for that many times.
pub fn log_level(verbose: u8) -> (level: LogLevel)
    ensures
        level == match verbose {
            0 => LogLevel::Info,
            1 => LogLevel::Debug,
            _ => LogLevel::Trace,
        },
{
    if verbose == 0 {
        LogLevel::Info
    } else if verbose == 1 {
        LogLevel::Debug
    } else {
        LogLevel::Trace
    }
}

/// How to present oneself to the server.
#[derive(Debug)]
pub enum Authentication {
    Anonymous,
    Plain { username: String, password: String },
}

/// How to present oneself to the server. A user name and a password come together or not
/// at all.
pub fn authentication(username: Option<String>, password: Option<String>) -> (authentication:
    Authentication)
    requires
        username is Some <==> password is Some,
    ensures
        match (username, password) {
            (Some(username), Some(password)) => authentication == (Authentication::Plain {
                username,
                password,
            }),
            _ => authentication == Authentication::Anonymous,
        },
{
    match (username, password) {
        (Some(username), Some(password)) => Authentication::Plain { username, password },
        _ => Authentication::Anonymous,
    }
}

/// What it takes to join a conference.
#[derive(Debug)]
pub struct ConferenceConfig {
    /// The address of the room.
    pub muc: String,
    /// The address of the component that runs the conference.
    pub focus: String,
    pub nick: String,
    pub region: String,
    pub video_codec: String,
    pub extra_muc_features: Vec<String>,
}

/// The address of a room, on the domain that was given for rooms or else on the usual one
/// of the server.
pub open spec fn room_address(
    room_name: Seq<char>,
    muc_domain: Option<String>,
    xmpp_domain: Seq<char>,
) -> Seq<char> {
    room_name + "@"@ + match muc_domain {
        Some(domain) => domain@,
        None => "conference."@ + xmpp_domain,
    }
}

/// The address of the component that runs conferences: the one that was given, or else
/// the usual one of the server.
pub open spec fn focus_address(focus_jid: Option<String>, xmpp_domain: Seq<char>) -> Seq<char> {
    match focus_jid {
        Some(jid) => jid@,
        None => "focus@auth."@ + xmpp_domain + "/focus"@,
    }
}

/// The address of a room.
pub fn room_jid(room_name: &str, muc_domain: &Option<String>, xmpp_domain: &str) -> (jid: String)
    ensures
        jid@ == room_address(room_name@, *muc_domain, xmpp_domain@),
{
    let domain = match muc_domain {
        Some(domain) => domain.clone(),
        None => "conference.".to_owned().concat(xmpp_domain),
    };
    room_name.to_owned().concat("@").concat(domain.as_str())
}

/// The address of the component that runs conferences.
pub fn focus_jid(given: &Option<String>, xmpp_domain: &str) -> (jid: String)
    ensures
        jid@ == focus_address(*given, xmpp_domain@),
{
    match given {
        Some(jid) => jid.clone(),
        None => "focus@auth.".to_owned().concat(xmpp_domain).concat("/focus"),
    }
}

impl ConferenceConfig {
    /// What it takes to join the conference in a room as a transcriber.
    pub fn new(
        room_name: &str,
        muc_domain: &Option<String>,
        given_focus: &Option<String>,
        xmpp_domain: &str,
        region: String,
    ) -> (config: ConferenceConfig)
        ensures
            config.muc@ == room_address(room_name@, *muc_domain, xmpp_domain@),
            config.focus@ == focus_address(*given_focus, xmpp_domain@),
            config.nick@ == "Transcriber"@,
            config.region == region,
            config.video_codec@ == "vp8"@,
            config.extra_muc_features@.len() == 1,
            config.extra_muc_features@[0]@ == "http://jitsi.org/protocol/jigasi"@,
    {
        ConferenceConfig {
            muc: room_jid(room_name, muc_domain, xmpp_domain),
            focus: focus_jid(given_focus, xmpp_domain),
            nick: "Transcriber".to_owned(),
            region,
            video_codec: "vp8".to_owned(),
            extra_muc_features: vec!["http://jitsi.org/protocol/jigasi".to_owned()],
        }
    }
}

/// The address of a room is the room, one `@` and the domain, which is the given one as it is
/// or else the server's with `conference.` in front of it.
pub proof fn law_room_address(
    room_name: Seq<char>,
    muc_domain: Option<String>,
    xmpp_domain: Seq<char>,
)
    ensures
        ({
            let address = room_address(room_name, muc_domain, xmpp_domain);
            let domain = address.skip(room_name.len() as int + 1);
            &&& address.len() > room_name.len()
            &&& address.take(room_name.len() as int) == room_name
            &&& address[room_name.len() as int] == '@'
            &&& muc_domain matches Some(given) ==> domain == given@
            &&& muc_domain is None ==> domain.take(11) == "conference."@ && domain.skip(11)
                == xmpp_domain
        }),
{
    reveal_strlit("@");
    reveal_strlit("conference.");
    let address = room_address(room_name, muc_domain, xmpp_domain);
    let domain = address.skip(room_name.len() as int + 1);
    assert(address.take(room_name.len() as int) =~= room_name);
    match muc_domain {
        Some(given) => {
            assert(domain =~= given@);
        },
        None => {
            assert(domain.take(11) =~= "conference."@);
            assert(domain.skip(11) =~= xmpp_domain);
        },
    }
}

/// The address of the component that runs conferences is the given one as it is, or else stands
/// for the focus on the server's domain.
pub proof fn law_focus_address(focus_jid: Option<String>, xmpp_domain: Seq<char>)
    ensures
        ({
            let address = focus_address(focus_jid, xmpp_domain);
            &&& focus_jid matches Some(given) ==> address == given@
            &&& focus_jid is None ==> {
                &&& address.len() == xmpp_domain.len() + 17
                &&& address.take(11) == "focus@auth."@
                &&& address.subrange(11, 11 + xmpp_domain.len() as int) == xmpp_domain
                &&& address.skip(11 + xmpp_domain.len() as int) == "/focus"@
            }
        }),
{
    reveal_strlit("focus@auth.");
    reveal_strlit("/focus");
    if focus_jid is None {
        let address = focus_address(focus_jid, xmpp_domain);
        assert(address.take(11) =~= "focus@auth."@);
        assert(address.subrange(11, 11 + xmpp_domain.len() as int) =~= xmpp_domain);
        assert(address.skip(11 + xmpp_domain.len() as int) =~= "/focus"@);
    }
}

/// Asking for nothing logs the least, asking once more, and asking twice or more often the most.
pub proof fn law_log_level(verbose: u8, level: LogLevel)
    requires
        call_ensures(log_level, (verbose,), level),
    ensures
        level == LogLevel::Info <==> verbose < 1,
        level == LogLevel::Debug <==> 0 < verbose < 2,
        level == LogLevel::Trace <==> verbose > 1,
{
}

/// Credentials that are given are used as they are, and without any one stays anonymous.
pub proof fn law_credentials_are_used(
    username: Option<String>,
    password: Option<String>,
    authentication: Authentication,
)
    requires
        username is Some <==> password is Some,
        call_ensures(self::authentication, (username, password), authentication),
    ensures
        authentication is Anonymous <==> username is None,
        authentication matches Authentication::Plain { username: user, password: secret }
            ==> username == Some(user) && password == Some(secret),
{
}

/// The conference that is joined is that of the room, run by the focus, at the addresses that
/// these have, in the region that was asked for; one presents oneself as a transcriber there.
pub proof fn law_conference_is_that_of_the_room(
    room_name: &str,
    muc_domain: Option<String>,
    given_focus: Option<String>,
    xmpp_domain: &str,
    region: String,
    config: ConferenceConfig,
    room: String,
    focus: String,
)
    requires
        call_ensures(
            ConferenceConfig::new,
            (room_name, &muc_domain, &given_focus, xmpp_domain, region),
            config,
        ),
        call_ensures(room_jid, (room_name, &muc_domain, xmpp_domain), room),
        call_ensures(focus_jid, (&given_focus, xmpp_domain), focus),
    ensures
        config.muc@ == room@,
        config.focus@ == focus@,
        config.muc@ == room_address(room_name@, muc_domain, xmpp_domain@),
        config.focus@ == focus_address(given_focus, xmpp_domain@),
        config.region@ == region@,
        config.nick@ == "Transcriber"@,
        config.video_codec@ == "vp8"@,
        config.extra_muc_features@.len() == 1,
        config.extra_muc_features@[0]@ == "http://jitsi.org/protocol/jigasi"@,
{
}

} // verus!
