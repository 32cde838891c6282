//! Tests of the envelope codec: exact request texts, omission of unset
//! fields, and parsing/decoding of response bodies.

use transmission_rpc::envelope::{
    Args, Method, SessionGet, SessionGetArgs, SessionGetFields, TorrentAdd, TorrentAddArgs,
    TorrentGet, TorrentGetArgs, TorrentGetFields, TransmissionRequest,
};
use transmission_rpc::envelope::decode_response;
use transmission_rpc::json::{parse_json, render_json, u32_text, Json};

fn add_args() -> TorrentAddArgs {
    TorrentAddArgs {
        cookies: None,
        download_dir: None,
        filename: None,
        labels: None,
        metainfo: None,
        paused: None,
        peer_limit: None,
        bandwidth_priority: None,
        files_wanted: None,
        files_unwanted: None,
        priority_high: None,
        priority_low: None,
        priority_normal: None,
    }
}

#[test]
fn encode_session_get_fields() {
    let req = TransmissionRequest {
        method: Method::SessionGet,
        arguments: Some(Args::SessionGet(SessionGetArgs {
            fields: Some(vec![SessionGetFields::RPCVersion]),
        })),
    };
    assert_eq!(
        req.encode(),
        r#"{"method":"session-get","arguments":{"fields":["rpc-version"]}}"#
    );
}

#[test]
fn encode_session_get_no_fields_gives_empty_arguments_object() {
    let req = TransmissionRequest {
        method: Method::SessionGet,
        arguments: Some(Args::SessionGet(SessionGetArgs { fields: None })),
    };
    assert_eq!(req.encode(), r#"{"method":"session-get","arguments":{}}"#);
}

#[test]
fn encode_without_arguments_omits_the_key() {
    let req = TransmissionRequest {
        method: Method::SessionGet,
        arguments: None,
    };
    let text = req.encode();
    assert_eq!(text, r#"{"method":"session-get"}"#);
    let v: serde_json::Value = serde_json::from_str(&text).unwrap();
    assert!(v.get("arguments").is_none());
}

#[test]
fn encode_torrent_add_single_field_has_exactly_that_key() {
    let magnet = "magnet:?xt=urn:btih:ab6ad7ff24b5ed3a61352a1f1a7811a8c3cc6dde&dn=archlinux-2023.09.01-x86_64.iso";
    let req = TransmissionRequest {
        method: Method::TorrentAdd,
        arguments: Some(Args::TorrentAdd(TorrentAddArgs {
            filename: Some(magnet.to_owned()),
            ..add_args()
        })),
    };
    let text = req.encode();
    assert_eq!(
        text,
        format!(r#"{{"method":"torrent-add","arguments":{{"filename":"{}"}}}}"#, magnet)
    );
    let v: serde_json::Value = serde_json::from_str(&text).unwrap();
    let args = v["arguments"].as_object().unwrap();
    assert_eq!(args.len(), 1);
    assert!(args.contains_key("filename"));
}

#[test]
fn encode_torrent_add_unset_fields_are_omitted_not_null() {
    let req = TransmissionRequest {
        method: Method::TorrentAdd,
        arguments: Some(Args::TorrentAdd(TorrentAddArgs {
            download_dir: Some("/data".to_owned()),
            peer_limit: Some(7),
            files_wanted: Some(vec![0, 2]),
            ..add_args()
        })),
    };
    let text = req.encode();
    assert_eq!(
        text,
        r#"{"method":"torrent-add","arguments":{"download-dir":"/data","peer-limit":7,"files-wanted":[0,2]}}"#
    );
    let v: serde_json::Value = serde_json::from_str(&text).unwrap();
    let args = v["arguments"].as_object().unwrap();
    assert_eq!(args.len(), 3);
    assert!(!text.contains("null"));
    assert!(!text.contains("cookies"));
}

#[test]
fn encode_torrent_get_field_names() {
    let req = TransmissionRequest {
        method: Method::TorrentGet,
        arguments: Some(Args::TorrentGet(TorrentGetArgs {
            fields: Some(vec![
                TorrentGetFields::Name,
                TorrentGetFields::Eta,
                TorrentGetFields::PeerLimit,
            ]),
            ids: Some(vec![1, 2]),
        })),
    };
    assert_eq!(
        req.encode(),
        r#"{"method":"torrent-get","arguments":{"fields":["name","eta","peer-limit"],"ids":[1,2]}}"#
    );
}

#[test]
fn encode_escapes_quotes_and_backslashes() {
    let req = TransmissionRequest {
        method: Method::TorrentAdd,
        arguments: Some(Args::TorrentAdd(TorrentAddArgs {
            download_dir: Some(r#"c:\tor "rents""#.to_owned()),
            ..add_args()
        })),
    };
    let text = req.encode();
    assert_eq!(
        text,
        r#"{"method":"torrent-add","arguments":{"download-dir":"c:\\tor \"rents\""}}"#
    );
    let v: serde_json::Value = serde_json::from_str(&text).unwrap();
    assert_eq!(v["arguments"]["download-dir"], r#"c:\tor "rents""#);
}

#[test]
fn encode_escapes_control_characters() {
    let req = TransmissionRequest {
        method: Method::TorrentAdd,
        arguments: Some(Args::TorrentAdd(TorrentAddArgs {
            labels: Some("a\nb\u{1}c".to_owned()),
            ..add_args()
        })),
    };
    let text = req.encode();
    assert_eq!(
        text,
        r#"{"method":"torrent-add","arguments":{"labels":"a\nb\u0001c"}}"#
    );
    let v: serde_json::Value = serde_json::from_str(&text).unwrap();
    assert_eq!(v["arguments"]["labels"], "a\nb\u{1}c");
}

#[test]
fn decode_reads_explicit_null_as_absent() {
    let body = r#"{"arguments":{"rpc-version":null,"config-dir":null},"result":"success"}"#;
    let env = decode_response::<SessionGet>(body).unwrap();
    assert_eq!(env.arguments.rpc_version, None);
    assert_eq!(env.arguments.config_dir, None);
    let add = r#"{"arguments":{"torrent-added":null},"result":"success"}"#;
    let env = decode_response::<TorrentAdd>(add).unwrap();
    assert!(env.arguments.torrent_added.is_none());
    let get = r#"{"arguments":{"torrents":[{"eta":null}],"removed":null},"result":"success"}"#;
    let env = decode_response::<TorrentGet>(get).unwrap();
    assert_eq!(env.arguments.torrents[0].eta, None);
    assert!(env.arguments.removed.is_none());
}

#[test]
fn u32_text_exact() {
    assert_eq!(u32_text(0), "0");
    assert_eq!(u32_text(17), "17");
    assert_eq!(u32_text(4294967295), "4294967295");
}

#[test]
fn parse_accepts_the_grammar() {
    assert_eq!(parse_json("null"), Some(Json::Null));
    assert_eq!(parse_json(" true "), Some(Json::Bool(true)));
    assert_eq!(parse_json("false"), Some(Json::Bool(false)));
    assert_eq!(parse_json("-12"), Some(Json::Num("-12".to_owned())));
    assert_eq!(parse_json("0.25"), Some(Json::Num("0.25".to_owned())));
    assert_eq!(parse_json("2e10"), Some(Json::Num("2e10".to_owned())));
    assert_eq!(
        parse_json(r#""a\"b\\c\nd""#),
        Some(Json::Str("a\"b\\c\nd".to_owned()))
    );
    assert_eq!(
        parse_json("[1, 2,3]"),
        Some(Json::Arr(vec![
            Json::Num("1".to_owned()),
            Json::Num("2".to_owned()),
            Json::Num("3".to_owned()),
        ]))
    );
    assert_eq!(
        parse_json(r#" { "a" : [ { } ] , "b" : "x" } "#),
        Some(Json::Obj(vec![
            ("a".to_owned(), Json::Arr(vec![Json::Obj(vec![])])),
            ("b".to_owned(), Json::Str("x".to_owned())),
        ]))
    );
}

#[test]
fn parse_rejects_malformed_text() {
    assert_eq!(parse_json(""), None);
    assert_eq!(parse_json("plop"), None);
    assert_eq!(parse_json("{\"x\":}"), None);
    assert_eq!(parse_json("{\"a\":1"), None);
    assert_eq!(parse_json("\"unterminated"), None);
    assert_eq!(parse_json("[1,]"), None);
    assert_eq!(parse_json("{} trailing"), None);
    // integer parts may not carry leading zeros
    assert_eq!(parse_json("01"), None);
    assert_eq!(parse_json("-012"), None);
    // a raw control character may not stand inside a string literal
    assert_eq!(parse_json("\"a\nb\""), None);
    // broken unicode escapes
    assert_eq!(parse_json(r#""\u12G4""#), None);
    assert_eq!(parse_json(r#""\u12""#), None);
    // a high surrogate must be followed by a low one
    assert_eq!(parse_json(r#""\uD83D""#), None);
    assert_eq!(parse_json(r#""\uD83D\u0041""#), None);
    // a lone low surrogate denotes nothing
    assert_eq!(parse_json(r#""\uDE00""#), None);
}

#[test]
fn parse_unicode_escapes() {
    assert_eq!(parse_json(r#""\u0041""#), Some(Json::Str("A".to_owned())));
    assert_eq!(
        parse_json(r#""\u00e9l\u00e8ve""#),
        Some(Json::Str("\u{e9}l\u{e8}ve".to_owned()))
    );
    // a surrogate pair denotes one character beyond the basic plane
    assert_eq!(
        parse_json(r#""\uD83D\uDE00""#),
        Some(Json::Str("\u{1F600}".to_owned()))
    );
    // the escaped forms of control characters are accepted
    assert_eq!(
        parse_json(r#""a\u0001b""#),
        Some(Json::Str("a\u{1}b".to_owned()))
    );
}

#[test]
fn parse_number_edges() {
    assert_eq!(parse_json("0"), Some(Json::Num("0".to_owned())));
    assert_eq!(parse_json("-0.5"), Some(Json::Num("-0.5".to_owned())));
    // exponent digits may carry leading zeros
    assert_eq!(parse_json("1e01"), Some(Json::Num("1e01".to_owned())));
}

#[test]
fn render_parse_round_trip() {
    let v = Json::Obj(vec![
        ("n".to_owned(), Json::Null),
        ("b".to_owned(), Json::Bool(false)),
        ("x".to_owned(), Json::Num("-3".to_owned())),
        (
            "s".to_owned(),
            Json::Str("q\"uo\\te\n\u{2}".to_owned()),
        ),
        ("l".to_owned(), Json::Arr(vec![Json::Num("1".to_owned())])),
    ]);
    let text = render_json(&v);
    assert_eq!(parse_json(&text), Some(v));
}

#[test]
fn decode_session_get_response() {
    let body = r#"{"arguments":{"rpc-version":17,"config-dir":"/etc/t"},"result":"success"}"#;
    let env = decode_response::<SessionGet>(body).unwrap();
    assert_eq!(env.arguments.rpc_version, Some(17));
    assert_eq!(env.arguments.config_dir, Some("/etc/t".to_owned()));
    assert_eq!(env.result, "success");
}

#[test]
fn decode_tolerates_unknown_fields_and_omissions() {
    let body = r#"{"arguments":{"rpc-version":17,"something-new":[1,2]},"result":"success"}"#;
    let env = decode_response::<SessionGet>(body).unwrap();
    assert_eq!(env.arguments.rpc_version, Some(17));
    assert_eq!(env.arguments.config_dir, None);
}

#[test]
fn decode_rejects_wrong_shapes() {
    // no envelope at all
    assert!(decode_response::<SessionGet>("not json").is_none());
    // result missing
    assert!(decode_response::<SessionGet>(r#"{"arguments":{}}"#).is_none());
    // result not a string
    assert!(decode_response::<SessionGet>(r#"{"arguments":{},"result":3}"#).is_none());
    // arguments missing
    assert!(decode_response::<SessionGet>(r#"{"result":"success"}"#).is_none());
    // a known field with the wrong type
    assert!(
        decode_response::<SessionGet>(r#"{"arguments":{"rpc-version":"x"},"result":"ok"}"#)
            .is_none()
    );
    // a value too large for the field
    assert!(
        decode_response::<SessionGet>(
            r#"{"arguments":{"rpc-version":4294967296},"result":"ok"}"#
        )
        .is_none()
    );
}

#[test]
fn decode_torrent_get_response() {
    let body = r#"{"arguments":{"torrents":[{"name":"arch.iso","eta":-1,"percentDone":0.25,"totalSize":812,"unknownField":null}]},"result":"success"}"#;
    let env = decode_response::<TorrentGet>(body).unwrap();
    assert_eq!(env.arguments.torrents.len(), 1);
    let t = &env.arguments.torrents[0];
    assert_eq!(t.name, Some("arch.iso".to_owned()));
    assert_eq!(t.eta, Some(-1));
    assert_eq!(t.percent_done, Some("0.25".to_owned()));
    assert_eq!(t.total_size, Some(812));
    assert_eq!(t.id, None);
    assert!(env.arguments.removed.is_none());
}

#[test]
fn decode_torrent_get_rejects_out_of_range_number() {
    // 3000000000 does not fit the i32 the field holds
    let body = r#"{"arguments":{"torrents":[{"totalSize":3000000000}]},"result":"success"}"#;
    assert!(decode_response::<TorrentGet>(body).is_none());
}

#[test]
fn decode_rejects_non_integer_number_in_integer_field() {
    // fractional or exponent forms never fit an integer field
    let body = r#"{"arguments":{"rpc-version":1e2},"result":"ok"}"#;
    assert!(decode_response::<SessionGet>(body).is_none());
    let frac = r#"{"arguments":{"rpc-version":17.5},"result":"ok"}"#;
    assert!(decode_response::<SessionGet>(frac).is_none());
}

#[test]
fn encode_torrent_get_ids_only() {
    let req = TransmissionRequest {
        method: Method::TorrentGet,
        arguments: Some(Args::TorrentGet(TorrentGetArgs {
            fields: None,
            ids: Some(vec![7]),
        })),
    };
    assert_eq!(
        req.encode(),
        r#"{"method":"torrent-get","arguments":{"ids":[7]}}"#
    );
}

#[test]
fn decode_torrent_add_response() {
    let body = r#"{"arguments":{"torrent-added":{"id":3,"name":"arch.iso","hashString":"ab6ad7"}},"result":"success"}"#;
    let env = decode_response::<TorrentAdd>(body).unwrap();
    let added = env.arguments.torrent_added.unwrap();
    assert_eq!(added.id, Some(3));
    assert_eq!(added.name, Some("arch.iso".to_owned()));
    assert_eq!(added.hash_string, Some("ab6ad7".to_owned()));
    assert!(env.arguments.torrent_duplicate.is_none());
}
