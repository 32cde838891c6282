//! Tests of the transport/session engine: the handshake, the retry budget,
//! and what is attached to every request the engine sends.

use transmission_rpc::envelope::{
    Args, Method, SessionGetFields, TorrentAddArgs, TorrentGetArgs, TorrentGetFields,
    TransmissionRequest, SessionGet,
};
use transmission_rpc::transport::{Client, Reply, TransportError};
use transmission_rpc::RETRIES;

const URL: &str = "http://127.0.0.1:9091/transmission/rpc";

fn ok_reply(body: &str) -> Reply {
    Reply::Status {
        code: 200,
        session: None,
        body: body.to_owned(),
    }
}

fn conflict(token: Option<&str>) -> Reply {
    Reply::Status {
        code: 409,
        session: token.map(|t| t.to_owned()),
        body: String::new(),
    }
}

/// Pads a script to the retry budget; the padding is never reached.
fn script(mut replies: Vec<Reply>) -> Vec<Reply> {
    while replies.len() < RETRIES {
        replies.push(Reply::NetworkError);
    }
    replies
}

fn add_args() -> TorrentAddArgs {
    TorrentAddArgs {
        cookies: None,
        download_dir: None,
        filename: None,
        labels: None,
        metainfo: None,
        paused: None,
        peer_limit: None,
        bandwidth_priority: None,
        files_wanted: None,
        files_unwanted: None,
        priority_high: None,
        priority_low: None,
        priority_normal: None,
    }
}

#[test]
fn fresh_client_handshake_end_to_end() {
    // A fresh client: the first send carries no session header, the 409
    // discloses tok1, the one retry carries exactly tok1, and the second
    // reply's body comes back decoded. Exactly two sends happen.
    let mut client = Client::new(URL);
    assert!(client.session_id.is_none());
    let replies = script(vec![
        conflict(Some("tok1")),
        ok_reply(r#"{"arguments":{"rpc-version":17},"result":"success"}"#),
    ]);
    let (result, sends) =
        client.session_get(Some(vec![SessionGetFields::RPCVersion]), &replies);
    let env = result.unwrap();
    assert_eq!(env.arguments.rpc_version, Some(17));
    assert_eq!(env.result, "success");
    assert_eq!(sends.len(), 2);
    assert_eq!(sends[0].token, None);
    assert_eq!(sends[1].token, Some("tok1".to_owned()));
    assert_eq!(
        sends[0].body,
        r#"{"method":"session-get","arguments":{"fields":["rpc-version"]}}"#
    );
    assert_eq!(sends[0].body, sends[1].body);
    assert_eq!(client.session_id, Some("tok1".to_owned()));
}

#[test]
fn conflicts_on_every_attempt_exhaust_the_budget() {
    let mut client = Client::new(URL);
    let replies = vec![
        conflict(Some("t1")),
        conflict(Some("t2")),
        conflict(Some("t3")),
        conflict(Some("t4")),
        conflict(Some("t5")),
    ];
    let (result, sends) = client.session_get(None, &replies);
    match result {
        Err(TransportError::AuthRetriesExhausted { method, attempts }) => {
            assert_eq!(method, "session-get");
            assert_eq!(attempts, RETRIES);
        }
        other => panic!("expected exhausted retries, got {:?}", other),
    }
    assert_eq!(sends.len(), RETRIES);
    // each retry used the token just disclosed, never an older one
    assert_eq!(sends[0].token, None);
    assert_eq!(sends[1].token, Some("t1".to_owned()));
    assert_eq!(sends[4].token, Some("t4".to_owned()));
    assert_eq!(client.session_id, Some("t5".to_owned()));
}

#[test]
fn malformed_body_fails_without_retry() {
    let mut client = Client::new(URL);
    let replies = script(vec![ok_reply("this is not an envelope")]);
    let (result, sends) = client.session_get(None, &replies);
    match result {
        Err(TransportError::MalformedResponse { method, status }) => {
            assert_eq!(method, "session-get");
            assert_eq!(status, 200);
        }
        other => panic!("expected a malformed response, got {:?}", other),
    }
    assert_eq!(sends.len(), 1);
}

#[test]
fn network_failure_fails_without_retry() {
    let mut client = Client::new(URL);
    let replies = script(vec![Reply::NetworkError]);
    let (result, sends) = client.session_get(None, &replies);
    match result {
        Err(TransportError::TransportFailure { method }) => {
            assert_eq!(method, "session-get");
        }
        other => panic!("expected a transport failure, got {:?}", other),
    }
    assert_eq!(sends.len(), 1);
}

#[test]
fn held_token_attached_and_single_field_body() {
    // A client already holding tok1 sends it on the first attempt, and an
    // add request with one set field carries exactly that one key.
    let mut client = Client::new(URL);
    client.session_id = Some("tok1".to_owned());
    let replies = script(vec![ok_reply(r#"{"arguments":{},"result":"success"}"#)]);
    let args = TorrentAddArgs {
        filename: Some("magnet:?xt=urn:btih:ab6ad7".to_owned()),
        ..add_args()
    };
    let (result, sends) = client.torrent_add(args, &replies);
    let env = result.unwrap();
    assert!(env.arguments.torrent_added.is_none());
    assert!(env.arguments.torrent_duplicate.is_none());
    assert_eq!(sends.len(), 1);
    assert_eq!(sends[0].token, Some("tok1".to_owned()));
    assert_eq!(
        sends[0].body,
        r#"{"method":"torrent-add","arguments":{"filename":"magnet:?xt=urn:btih:ab6ad7"}}"#
    );
    let v: serde_json::Value = serde_json::from_str(&sends[0].body).unwrap();
    assert_eq!(v["arguments"].as_object().unwrap().len(), 1);
}

#[test]
fn token_updates_are_seen_by_every_later_send() {
    // Two conflicts in a row: every send after an install carries the
    // newest token, never an older one.
    let mut client = Client::new(URL);
    client.session_id = Some("tok0".to_owned());
    let replies = script(vec![
        conflict(Some("tokA")),
        conflict(Some("tokB")),
        ok_reply(r#"{"arguments":{},"result":"success"}"#),
    ]);
    let (result, sends) = client.session_get(None, &replies);
    assert!(result.is_ok());
    assert_eq!(sends.len(), 3);
    assert_eq!(sends[0].token, Some("tok0".to_owned()));
    assert_eq!(sends[1].token, Some("tokA".to_owned()));
    assert_eq!(sends[2].token, Some("tokB".to_owned()));
    assert_eq!(client.session_id, Some("tokB".to_owned()));
}

#[test]
fn conflict_without_header_keeps_the_token_and_costs_an_attempt() {
    let mut client = Client::new(URL);
    let replies = script(vec![
        conflict(None),
        conflict(Some("tok1")),
        ok_reply(r#"{"arguments":{},"result":"success"}"#),
    ]);
    let request = TransmissionRequest {
        method: Method::SessionGet,
        arguments: None,
    };
    let (result, sends) = client.invoke::<SessionGet>(&request, &replies);
    assert!(result.is_ok());
    assert_eq!(sends.len(), 3);
    assert_eq!(sends[0].token, None);
    assert_eq!(sends[1].token, None);
    assert_eq!(sends[2].token, Some("tok1".to_owned()));
    assert_eq!(sends[0].body, r#"{"method":"session-get"}"#);
}

#[test]
fn result_text_is_passed_through_uninterpreted() {
    let mut client = Client::new(URL);
    let replies = script(vec![ok_reply(
        r#"{"arguments":{},"result":"no space left on device"}"#,
    )]);
    let (result, _) = client.session_get(None, &replies);
    let env = result.unwrap();
    assert_eq!(env.result, "no space left on device");
}

#[test]
fn torrent_get_end_to_end() {
    let mut client = Client::new(URL);
    let replies = script(vec![
        conflict(Some("tok1")),
        ok_reply(
            r#"{"arguments":{"torrents":[{"name":"arch.iso","eta":42,"peer-limit":30}]},"result":"success"}"#,
        ),
    ]);
    let args = TorrentGetArgs {
        fields: Some(vec![
            TorrentGetFields::Name,
            TorrentGetFields::Eta,
            TorrentGetFields::PeerLimit,
        ]),
        ids: None,
    };
    let (result, sends) = client.torrent_get(args, &replies);
    let env = result.unwrap();
    assert_eq!(env.arguments.torrents.len(), 1);
    assert_eq!(env.arguments.torrents[0].name, Some("arch.iso".to_owned()));
    assert_eq!(env.arguments.torrents[0].eta, Some(42));
    assert_eq!(env.arguments.torrents[0].peer_limit, Some(30));
    assert_eq!(sends.len(), 2);
    assert_eq!(
        sends[0].body,
        r#"{"method":"torrent-get","arguments":{"fields":["name","eta","peer-limit"]}}"#
    );
}

#[test]
fn client_new_uses_the_default_budget() {
    let client = Client::new(URL);
    assert_eq!(client.url, URL);
    assert_eq!(client.retries, RETRIES);
    assert!(client.session_id.is_none());
}

#[test]
fn args_enum_carries_each_method() {
    // the closed set of descriptors covers the three methods
    let reqs = vec![
        TransmissionRequest {
            method: Method::SessionGet,
            arguments: Some(Args::SessionGet(
                transmission_rpc::envelope::SessionGetArgs { fields: None },
            )),
        },
        TransmissionRequest {
            method: Method::TorrentAdd,
            arguments: Some(Args::TorrentAdd(add_args())),
        },
        TransmissionRequest {
            method: Method::TorrentGet,
            arguments: Some(Args::TorrentGet(TorrentGetArgs {
                fields: None,
                ids: None,
            })),
        },
    ];
    let texts: Vec<String> = reqs.iter().map(|r| r.encode()).collect();
    assert!(texts[0].contains(r#""method":"session-get""#));
    assert!(texts[1].contains(r#""method":"torrent-add""#));
    assert!(texts[2].contains(r#""method":"torrent-get""#));
}
