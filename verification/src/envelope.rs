//! The request/response envelope: the wire shape shared by every remote
//! call, and the typed argument and result shapes that flow through it.
//!
//! A request is the object `{"method": <name>, "arguments": <object>}`, the
//! `arguments` key omitted entirely when no arguments are given; inside an
//! argument object a field left unset is omitted entirely as well, never
//! written as `null`, so that the daemon keeps its own defaults. A response
//! is the object `{"arguments": <object>, "result": <status text>}`.

use vstd::prelude::*;

use crate::json::{
    dec_text, jv, jv_int, jv_list, jv_members, json_int, lemma_jv_list_index, lemma_jv_list_len,
    obj_field, obj_get, parse_json, render, render_json, sp_json, u32_text, Json, JsonV,
};

verus! {

broadcast use vstd::std_specs::vec::group_vec_axioms, vstd::seq::group_seq_axioms, vstd::string::group_string_axioms;

/// The model of an optional string: the view of what is there.
pub open spec fn ov(o: Option<String>) -> Option<Seq<char>> {
    match o {
        Some(s) => Some(s@),
        None => None,
    }
}

// ---------------------------------------------------------------------------
// Methods and their argument shapes.
// ---------------------------------------------------------------------------
/// The remote procedures the daemon offers.
#[derive(Clone, Copy, PartialEq, Eq, Structural, Debug)]
pub enum Method {
    SessionGet,
    TorrentAdd,
    TorrentGet,
}

impl Method {
    /// The wire name of the method.
    pub open spec fn spec_name(self) -> Seq<char> {
        match self {
            Method::SessionGet => "session-get"@,
            Method::TorrentAdd => "torrent-add"@,
            Method::TorrentGet => "torrent-get"@,
        }
    }

    pub fn name(&self) -> (r: &'static str)
        ensures
            r@ == self.spec_name(),
    {
        match self {
            Method::SessionGet => "session-get",
            Method::TorrentAdd => "torrent-add",
            Method::TorrentGet => "torrent-get",
        }
    }
}

/// The session fields a caller may ask for.
#[derive(Clone, Copy, PartialEq, Eq, Structural, Debug)]
pub enum SessionGetFields {
    RPCVersion,
    ConfigDir,
}

impl SessionGetFields {
    pub open spec fn spec_name(self) -> Seq<char> {
        match self {
            SessionGetFields::RPCVersion => "rpc-version"@,
            SessionGetFields::ConfigDir => "config-dir"@,
        }
    }

    pub fn name(&self) -> (r: &'static str)
        ensures
            r@ == self.spec_name(),
    {
        match self {
            SessionGetFields::RPCVersion => "rpc-version",
            SessionGetFields::ConfigDir => "config-dir",
        }
    }
}

/// The per-torrent fields a caller may ask for.
#[derive(Clone, Copy, PartialEq, Eq, Structural, Debug)]
pub enum TorrentGetFields {
    Error,
    ErrorString,
    Eta,
    HashString,
    Id,
    LeftUntilDone,
    PercentDone,
    Name,
    RateDownload,
    SizeWhenDone,
    TotalSize,
    Status,
    PeerLimit,
}

impl TorrentGetFields {
    pub open spec fn spec_name(self) -> Seq<char> {
        match self {
            TorrentGetFields::Error => "error"@,
            TorrentGetFields::ErrorString => "errorString"@,
            TorrentGetFields::Eta => "eta"@,
            TorrentGetFields::HashString => "hashString"@,
            TorrentGetFields::Id => "id"@,
            TorrentGetFields::LeftUntilDone => "leftUntilDone"@,
            TorrentGetFields::PercentDone => "percentDone"@,
            TorrentGetFields::Name => "name"@,
            TorrentGetFields::RateDownload => "rateDownload"@,
            TorrentGetFields::SizeWhenDone => "sizeWhenDone"@,
            TorrentGetFields::TotalSize => "totalSize"@,
            TorrentGetFields::Status => "status"@,
            TorrentGetFields::PeerLimit => "peer-limit"@,
        }
    }

    pub fn name(&self) -> (r: &'static str)
        ensures
            r@ == self.spec_name(),
    {
        match self {
            TorrentGetFields::Error => "error",
            TorrentGetFields::ErrorString => "errorString",
            TorrentGetFields::Eta => "eta",
            TorrentGetFields::HashString => "hashString",
            TorrentGetFields::Id => "id",
            TorrentGetFields::LeftUntilDone => "leftUntilDone",
            TorrentGetFields::PercentDone => "percentDone",
            TorrentGetFields::Name => "name",
            TorrentGetFields::RateDownload => "rateDownload",
            TorrentGetFields::SizeWhenDone => "sizeWhenDone",
            TorrentGetFields::TotalSize => "totalSize",
            TorrentGetFields::Status => "status",
            TorrentGetFields::PeerLimit => "peer-limit",
        }
    }
}

/// Arguments of a session query: the fields asked for, all of them when
/// unset.
#[derive(Debug, Clone)]
pub struct SessionGetArgs {
    pub fields: Option<Vec<SessionGetFields>>,
}

/// Arguments of a torrent query.
#[derive(Debug, Clone)]
pub struct TorrentGetArgs {
    pub fields: Option<Vec<TorrentGetFields>>,
    pub ids: Option<Vec<u32>>,
}

impl Default for TorrentGetArgs {
    fn default() -> (r: Self)
        ensures
            r.fields is None,
            r.ids is None,
    {
        TorrentGetArgs { fields: None, ids: None }
    }
}

/// Arguments of an add request; every field is optional and an unset field
/// is left out of the wire form entirely.
#[derive(Debug, Clone)]
pub struct TorrentAddArgs {
    pub cookies: Option<String>,
    pub download_dir: Option<String>,
    pub filename: Option<String>,
    pub labels: Option<String>,
    pub metainfo: Option<String>,
    pub paused: Option<String>,
    pub peer_limit: Option<u32>,
    pub bandwidth_priority: Option<u32>,
    pub files_wanted: Option<Vec<u32>>,
    pub files_unwanted: Option<Vec<u32>>,
    pub priority_high: Option<Vec<u32>>,
    pub priority_low: Option<Vec<u32>>,
    pub priority_normal: Option<Vec<u32>>,
}

impl Default for TorrentAddArgs {
    fn default() -> (r: Self)
        ensures
            torrent_add_pairs(r) == Seq::<(Seq<char>, JsonV)>::empty(),
            r.cookies is None,
            r.download_dir is None,
            r.filename is None,
            r.labels is None,
            r.metainfo is None,
            r.paused is None,
            r.peer_limit is None,
            r.bandwidth_priority is None,
            r.files_wanted is None,
            r.files_unwanted is None,
            r.priority_high is None,
            r.priority_low is None,
            r.priority_normal is None,
    {
        let r = TorrentAddArgs {
            cookies: None,
            download_dir: None,
            filename: None,
            labels: None,
            metainfo: None,
            paused: None,
            peer_limit: None,
            bandwidth_priority: None,
            files_wanted: None,
            files_unwanted: None,
            priority_high: None,
            priority_low: None,
            priority_normal: None,
        };
        proof {
            assert(torrent_add_pairs(r) =~= Seq::<(Seq<char>, JsonV)>::empty());
        }
        r
    }
}

/// The argument payload of a request, one variant per method.
#[derive(Debug, Clone)]
pub enum Args {
    SessionGet(SessionGetArgs),
    TorrentAdd(TorrentAddArgs),
    TorrentGet(TorrentGetArgs),
}

// ---------------------------------------------------------------------------
// The wire form of arguments: which members are emitted, and as what.
// ---------------------------------------------------------------------------
/// One member when the field is set, nothing when it is unset.
pub open spec fn opt_pair(key: Seq<char>, v: Option<JsonV>) -> Seq<(Seq<char>, JsonV)> {
    match v {
        Some(x) => seq![(key, x)],
        None => Seq::empty(),
    }
}

pub open spec fn jstr_of(o: Option<String>) -> Option<JsonV> {
    match o {
        Some(s) => Some(JsonV::Str(s@)),
        None => None,
    }
}

pub open spec fn ju32_of(o: Option<u32>) -> Option<JsonV> {
    match o {
        Some(x) => Some(JsonV::Num(dec_text(x as int))),
        None => None,
    }
}

pub open spec fn u32s_jv(l: Seq<u32>) -> Seq<JsonV> {
    l.map_values(|x: u32| JsonV::Num(dec_text(x as int)))
}

pub open spec fn ju32s_of(o: Option<Vec<u32>>) -> Option<JsonV> {
    match o {
        Some(v) => Some(JsonV::Arr(u32s_jv(v@))),
        None => None,
    }
}

pub open spec fn sg_fields_jv(l: Seq<SessionGetFields>) -> Seq<JsonV> {
    l.map_values(|f: SessionGetFields| JsonV::Str(f.spec_name()))
}

pub open spec fn tg_fields_jv(l: Seq<TorrentGetFields>) -> Seq<JsonV> {
    l.map_values(|f: TorrentGetFields| JsonV::Str(f.spec_name()))
}

/// The members of a session query's argument object.
pub open spec fn session_get_pairs(a: SessionGetArgs) -> Seq<(Seq<char>, JsonV)> {
    opt_pair(
        "fields"@,
        match a.fields {
            Some(l) => Some(JsonV::Arr(sg_fields_jv(l@))),
            None => None,
        },
    )
}

/// The members of a torrent query's argument object.
pub open spec fn torrent_get_pairs(a: TorrentGetArgs) -> Seq<(Seq<char>, JsonV)> {
    opt_pair(
        "fields"@,
        match a.fields {
            Some(l) => Some(JsonV::Arr(tg_fields_jv(l@))),
            None => None,
        },
    ) + opt_pair("ids"@, ju32s_of(a.ids))
}

/// The members of an add request's argument object: exactly the fields that
/// are set, in declaration order, under their wire names.
pub open spec fn torrent_add_pairs(a: TorrentAddArgs) -> Seq<(Seq<char>, JsonV)> {
    opt_pair("cookies"@, jstr_of(a.cookies)) + opt_pair("download-dir"@, jstr_of(a.download_dir))
        + opt_pair("filename"@, jstr_of(a.filename)) + opt_pair("labels"@, jstr_of(a.labels))
        + opt_pair("metainfo"@, jstr_of(a.metainfo)) + opt_pair("paused"@, jstr_of(a.paused))
        + opt_pair("peer-limit"@, ju32_of(a.peer_limit)) + opt_pair(
        "bandwidth-priority"@,
        ju32_of(a.bandwidth_priority),
    ) + opt_pair("files-wanted"@, ju32s_of(a.files_wanted)) + opt_pair(
        "files-unwanted"@,
        ju32s_of(a.files_unwanted),
    ) + opt_pair("priority-high"@, ju32s_of(a.priority_high)) + opt_pair(
        "priority-low"@,
        ju32s_of(a.priority_low),
    ) + opt_pair("priority-normal"@, ju32s_of(a.priority_normal))
}

/// The members of a request's argument object.
pub open spec fn args_pairs(a: Args) -> Seq<(Seq<char>, JsonV)> {
    match a {
        Args::SessionGet(sg) => session_get_pairs(sg),
        Args::TorrentAdd(ta) => torrent_add_pairs(ta),
        Args::TorrentGet(tg) => torrent_get_pairs(tg),
    }
}

/// The whole request object for a method descriptor.
pub open spec fn request_jv(m: Method, args: Option<Args>) -> JsonV {
    JsonV::Obj(
        seq![("method"@, JsonV::Str(m.spec_name()))] + match args {
            Some(a) => seq![("arguments"@, JsonV::Obj(args_pairs(a)))],
            None => Seq::empty(),
        },
    )
}

/// The exact text a method descriptor is sent as.
pub open spec fn request_text(m: Method, args: Option<Args>) -> Seq<char> {
    render(request_jv(m, args))
}

// ---------------------------------------------------------------------------
// Building the wire form.
// ---------------------------------------------------------------------------
fn push_pair(out: &mut Vec<(String, Json)>, key: &str, v: Json)
    ensures
        jv_members(final(out)@) == jv_members(old(out)@).push((key@, jv(v))),
{
    let k = String::from_str(key);
    proof {
        crate::json::lemma_jv_members_push(out@, k, v);
    }
    out.push((k, v));
}

fn push_str_field(out: &mut Vec<(String, Json)>, key: &str, v: &Option<String>)
    ensures
        jv_members(final(out)@) == jv_members(old(out)@) + opt_pair(key@, jstr_of(*v)),
{
    match v {
        Some(s) => {
            push_pair(out, key, Json::Str(s.clone()));
            proof {
                assert(jv_members(out@) =~= jv_members(old(out)@) + opt_pair(key@, jstr_of(*v)));
            }
        },
        None => {
            proof {
                assert(jv_members(out@) =~= jv_members(old(out)@) + opt_pair(key@, jstr_of(*v)));
            }
        },
    }
}

fn push_u32_field(out: &mut Vec<(String, Json)>, key: &str, v: &Option<u32>)
    ensures
        jv_members(final(out)@) == jv_members(old(out)@) + opt_pair(key@, ju32_of(*v)),
{
    match v {
        Some(x) => {
            push_pair(out, key, Json::Num(u32_text(*x)));
            proof {
                assert(jv_members(out@) =~= jv_members(old(out)@) + opt_pair(key@, ju32_of(*v)));
            }
        },
        None => {
            proof {
                assert(jv_members(out@) =~= jv_members(old(out)@) + opt_pair(key@, ju32_of(*v)));
            }
        },
    }
}

fn u32s_json(l: &Vec<u32>) -> (r: Vec<Json>)
    ensures
        jv_list(r@) == u32s_jv(l@),
{
    let mut r: Vec<Json> = Vec::new();
    let n = l.len();
    let mut i: usize = 0;
    while i < n
        invariant
            n == l@.len(),
            i <= n,
            r@.len() == i,
            jv_list(r@) =~= u32s_jv(l@.subrange(0, i as int)),
        decreases n - i,
    {
        let item = Json::Num(u32_text(l[i]));
        proof {
            crate::json::lemma_jv_list_push(r@, item);
        }
        r.push(item);
        proof {
            assert(jv_list(r@) =~= u32s_jv(l@.subrange(0, i + 1int)));
        }
        i = i + 1;
    }
    proof {
        assert(l@.subrange(0, n as int) =~= l@);
    }
    r
}

fn push_u32s_field(out: &mut Vec<(String, Json)>, key: &str, v: &Option<Vec<u32>>)
    ensures
        jv_members(final(out)@) == jv_members(old(out)@) + opt_pair(key@, ju32s_of(*v)),
{
    match v {
        Some(l) => {
            let arr = u32s_json(l);
            push_pair(out, key, Json::Arr(arr));
            proof {
                assert(jv_members(out@) =~= jv_members(old(out)@) + opt_pair(key@, ju32s_of(*v)));
            }
        },
        None => {
            proof {
                assert(jv_members(out@) =~= jv_members(old(out)@) + opt_pair(key@, ju32s_of(*v)));
            }
        },
    }
}

impl Args {
    /// The argument object's members, per [`args_pairs`].
    fn to_members(&self) -> (out: Vec<(String, Json)>)
        ensures
            jv_members(out@) == args_pairs(*self),
    {
        let mut out: Vec<(String, Json)> = Vec::new();
        match self {
            Args::SessionGet(sg) => {
                match &sg.fields {
                    Some(l) => {
                        let mut arr: Vec<Json> = Vec::new();
                        let n = l.len();
                        let mut i: usize = 0;
                        while i < n
                            invariant
                                n == l@.len(),
                                i <= n,
                                arr@.len() == i,
                                jv_list(arr@) =~= sg_fields_jv(l@.subrange(0, i as int)),
                            decreases n - i,
                        {
                            let s = l[i].name();
                            let item = Json::Str(String::from_str(s));
                            proof {
                                crate::json::lemma_jv_list_push(arr@, item);
                            }
                            arr.push(item);
                            proof {
                                assert(jv_list(arr@) =~= sg_fields_jv(l@.subrange(0, i + 1int)));
                            }
                            i = i + 1;
                        }
                        proof {
                            assert(l@.subrange(0, n as int) =~= l@);
                        }
                        push_pair(&mut out, "fields", Json::Arr(arr));
                        proof {
                            assert(jv_members(out@) =~= args_pairs(*self));
                        }
                    },
                    None => {
                        proof {
                            assert(jv_members(out@) =~= args_pairs(*self));
                        }
                    },
                }
            },
            Args::TorrentGet(tg) => {
                match &tg.fields {
                    Some(l) => {
                        let mut arr: Vec<Json> = Vec::new();
                        let n = l.len();
                        let mut i: usize = 0;
                        while i < n
                            invariant
                                n == l@.len(),
                                i <= n,
                                arr@.len() == i,
                                jv_list(arr@) =~= tg_fields_jv(l@.subrange(0, i as int)),
                            decreases n - i,
                        {
                            let s = l[i].name();
                            let item = Json::Str(String::from_str(s));
                            proof {
                                crate::json::lemma_jv_list_push(arr@, item);
                            }
                            arr.push(item);
                            proof {
                                assert(jv_list(arr@) =~= tg_fields_jv(l@.subrange(0, i + 1int)));
                            }
                            i = i + 1;
                        }
                        proof {
                            assert(l@.subrange(0, n as int) =~= l@);
                        }
                        push_pair(&mut out, "fields", Json::Arr(arr));
                    },
                    None => {},
                }
                push_u32s_field(&mut out, "ids", &tg.ids);
                proof {
                    assert(jv_members(out@) =~= args_pairs(*self));
                }
            },
            Args::TorrentAdd(ta) => {
                push_str_field(&mut out, "cookies", &ta.cookies);
                push_str_field(&mut out, "download-dir", &ta.download_dir);
                push_str_field(&mut out, "filename", &ta.filename);
                push_str_field(&mut out, "labels", &ta.labels);
                push_str_field(&mut out, "metainfo", &ta.metainfo);
                push_str_field(&mut out, "paused", &ta.paused);
                push_u32_field(&mut out, "peer-limit", &ta.peer_limit);
                push_u32_field(&mut out, "bandwidth-priority", &ta.bandwidth_priority);
                push_u32s_field(&mut out, "files-wanted", &ta.files_wanted);
                push_u32s_field(&mut out, "files-unwanted", &ta.files_unwanted);
                push_u32s_field(&mut out, "priority-high", &ta.priority_high);
                push_u32s_field(&mut out, "priority-low", &ta.priority_low);
                push_u32s_field(&mut out, "priority-normal", &ta.priority_normal);
                proof {
                    assert(jv_members(out@) =~= args_pairs(*self));
                }
            },
        }
        out
    }
}

/// A method descriptor: the method to invoke, with its argument payload.
#[derive(Debug, Clone)]
pub struct TransmissionRequest {
    pub method: Method,
    pub arguments: Option<Args>,
}

impl TransmissionRequest {
    /// Serializes the request, per [`request_text`]: the `arguments` key is
    /// omitted entirely when no arguments are given, and inside the argument
    /// object every unset field is omitted, never written as `null`.
    pub fn encode(&self) -> (out: String)
        ensures
            out@ == request_text(self.method, self.arguments),
    {
        let mut members: Vec<(String, Json)> = Vec::new();
        push_pair(&mut members, "method", Json::Str(String::from_str(self.method.name())));
        match &self.arguments {
            Some(a) => {
                let am = a.to_members();
                push_pair(&mut members, "arguments", Json::Obj(am));
            },
            None => {},
        }
        let root = Json::Obj(members);
        proof {
            assert(jv_members(root->Obj_0@) =~= request_jv(self.method, self.arguments)->Obj_0);
        }
        render_json(&root)
    }
}

// ---------------------------------------------------------------------------
// Responses: reading the daemon's reply into typed results.
// ---------------------------------------------------------------------------
/// A field read as a `u32`: the outer `None` says the member is there but
/// has the wrong shape; the inner option says whether it carries a value —
/// an absent member and an explicit `null` both read as unset.
pub open spec fn field_u32(ms: Seq<(Seq<char>, JsonV)>, key: Seq<char>) -> Option<Option<u32>> {
    match obj_get(ms, key) {
        None => Some(None),
        Some(JsonV::Null) => Some(None),
        Some(v) => match jv_int(v) {
            Some(x) => if 0 <= x <= u32::MAX {
                Some(Some(x as u32))
            } else {
                None
            },
            None => None,
        },
    }
}

/// A field read as an `i32`, in the same shape as [`field_u32`].
pub open spec fn field_i32(ms: Seq<(Seq<char>, JsonV)>, key: Seq<char>) -> Option<Option<i32>> {
    match obj_get(ms, key) {
        None => Some(None),
        Some(JsonV::Null) => Some(None),
        Some(v) => match jv_int(v) {
            Some(x) => if i32::MIN <= x <= i32::MAX {
                Some(Some(x as i32))
            } else {
                None
            },
            None => None,
        },
    }
}

/// A field read as a string, in the same shape as [`field_u32`].
pub open spec fn field_str(ms: Seq<(Seq<char>, JsonV)>, key: Seq<char>) -> Option<
    Option<Seq<char>>,
> {
    match obj_get(ms, key) {
        None => Some(None),
        Some(v) => match v {
            JsonV::Null => Some(None),
            JsonV::Str(t) => Some(Some(t)),
            _ => None,
        },
    }
}

/// A field read as a number's raw decimal text, in the same shape as
/// [`field_u32`]; this is how fractional values are carried without floating
/// point.
pub open spec fn field_num_text(ms: Seq<(Seq<char>, JsonV)>, key: Seq<char>) -> Option<
    Option<Seq<char>>,
> {
    match obj_get(ms, key) {
        None => Some(None),
        Some(v) => match v {
            JsonV::Null => Some(None),
            JsonV::Num(t) => Some(Some(t)),
            _ => None,
        },
    }
}

fn get_field_u32(ms: &Vec<(String, Json)>, key: &str) -> (r: Option<Option<u32>>)
    ensures
        r == field_u32(jv_members(ms@), key@),
{
    match obj_field(ms, key) {
        None => Some(None),
        Some(Json::Null) => Some(None),
        Some(j) => match json_int(j) {
            Some(x) => if 0 <= x && x <= u32::MAX as i64 {
                Some(Some(x as u32))
            } else {
                None
            },
            None => None,
        },
    }
}

fn get_field_i32(ms: &Vec<(String, Json)>, key: &str) -> (r: Option<Option<i32>>)
    ensures
        r == field_i32(jv_members(ms@), key@),
{
    match obj_field(ms, key) {
        None => Some(None),
        Some(Json::Null) => Some(None),
        Some(j) => match json_int(j) {
            Some(x) => if i32::MIN as i64 <= x && x <= i32::MAX as i64 {
                Some(Some(x as i32))
            } else {
                None
            },
            None => None,
        },
    }
}

fn get_field_str(ms: &Vec<(String, Json)>, key: &str) -> (r: Option<Option<String>>)
    ensures
        match r {
            Some(Some(t)) => field_str(jv_members(ms@), key@) == Some(Some(t@)),
            Some(None) => field_str(jv_members(ms@), key@) == Some(None::<Seq<char>>),
            None => field_str(jv_members(ms@), key@) is None,
        },
{
    match obj_field(ms, key) {
        None => Some(None),
        Some(j) => match j {
            Json::Null => Some(None),
            Json::Str(t) => Some(Some(t.clone())),
            _ => None,
        },
    }
}

fn get_field_num_text(ms: &Vec<(String, Json)>, key: &str) -> (r: Option<Option<String>>)
    ensures
        match r {
            Some(Some(t)) => field_num_text(jv_members(ms@), key@) == Some(Some(t@)),
            Some(None) => field_num_text(jv_members(ms@), key@) == Some(None::<Seq<char>>),
            None => field_num_text(jv_members(ms@), key@) is None,
        },
{
    match obj_field(ms, key) {
        None => Some(None),
        Some(j) => match j {
            Json::Null => Some(None),
            Json::Num(t) => Some(Some(t.clone())),
            _ => None,
        },
    }
}

/// Model of a torrent record.
pub struct TorrentV {
    pub error: Option<u32>,
    pub error_string: Option<Seq<char>>,
    pub eta: Option<i32>,
    pub hash_string: Option<Seq<char>>,
    pub id: Option<i32>,
    pub left_until_done: Option<i32>,
    pub name: Option<Seq<char>>,
    pub peer_limit: Option<i32>,
    pub percent_done: Option<Seq<char>>,
    pub rate_download: Option<i32>,
    pub size_when_done: Option<i32>,
    pub status: Option<i32>,
    pub total_size: Option<i32>,
}

/// One torrent's state, as the daemon reports it; a field the daemon left
/// out is `None`. The completion ratio is kept as the wire's decimal text,
/// since this crate performs no floating point arithmetic.
#[derive(Debug, Clone, PartialEq, Eq)]
pub struct Torrent {
    pub error: Option<u32>,
    pub error_string: Option<String>,
    pub eta: Option<i32>,
    pub hash_string: Option<String>,
    pub id: Option<i32>,
    pub left_until_done: Option<i32>,
    pub name: Option<String>,
    pub peer_limit: Option<i32>,
    pub percent_done: Option<String>,
    pub rate_download: Option<i32>,
    pub size_when_done: Option<i32>,
    pub status: Option<i32>,
    pub total_size: Option<i32>,
}

impl View for Torrent {
    type V = TorrentV;

    open spec fn view(&self) -> TorrentV {
        TorrentV {
            error: self.error,
            error_string: ov(self.error_string),
            eta: self.eta,
            hash_string: ov(self.hash_string),
            id: self.id,
            left_until_done: self.left_until_done,
            name: ov(self.name),
            peer_limit: self.peer_limit,
            percent_done: ov(self.percent_done),
            rate_download: self.rate_download,
            size_when_done: self.size_when_done,
            status: self.status,
            total_size: self.total_size,
        }
    }
}

/// The torrent record a JSON value denotes, if it is an object whose known
/// members have the right shapes.
pub open spec fn torrent_of_jv(v: JsonV) -> Option<TorrentV> {
    match v {
        JsonV::Obj(ms) => {
            if field_u32(ms, "error"@) is Some && field_str(ms, "errorString"@) is Some
                && field_i32(ms, "eta"@) is Some && field_str(ms, "hashString"@) is Some
                && field_i32(ms, "id"@) is Some && field_i32(ms, "leftUntilDone"@) is Some
                && field_str(ms, "name"@) is Some && field_i32(ms, "peer-limit"@) is Some
                && field_num_text(ms, "percentDone"@) is Some && field_i32(
                ms,
                "rateDownload"@,
            ) is Some && field_i32(ms, "sizeWhenDone"@) is Some && field_i32(
                ms,
                "status"@,
            ) is Some && field_i32(ms, "totalSize"@) is Some {
                Some(
                    TorrentV {
                        error: field_u32(ms, "error"@).unwrap(),
                        error_string: field_str(ms, "errorString"@).unwrap(),
                        eta: field_i32(ms, "eta"@).unwrap(),
                        hash_string: field_str(ms, "hashString"@).unwrap(),
                        id: field_i32(ms, "id"@).unwrap(),
                        left_until_done: field_i32(ms, "leftUntilDone"@).unwrap(),
                        name: field_str(ms, "name"@).unwrap(),
                        peer_limit: field_i32(ms, "peer-limit"@).unwrap(),
                        percent_done: field_num_text(ms, "percentDone"@).unwrap(),
                        rate_download: field_i32(ms, "rateDownload"@).unwrap(),
                        size_when_done: field_i32(ms, "sizeWhenDone"@).unwrap(),
                        status: field_i32(ms, "status"@).unwrap(),
                        total_size: field_i32(ms, "totalSize"@).unwrap(),
                    },
                )
            } else {
                None
            }
        },
        _ => None,
    }
}

/// Reads one torrent record, per [`torrent_of_jv`].
pub fn torrent_of_json(j: &Json) -> (r: Option<Torrent>)
    ensures
        match r {
            Some(t) => torrent_of_jv(jv(*j)) == Some(t@),
            None => torrent_of_jv(jv(*j)) is None,
        },
{
    match j {
        Json::Obj(ms) => {
            let error = match get_field_u32(ms, "error") {
                Some(x) => x,
                None => {
                    return None;
                },
            };
            let error_string = match get_field_str(ms, "errorString") {
                Some(x) => x,
                None => {
                    return None;
                },
            };
            let eta = match get_field_i32(ms, "eta") {
                Some(x) => x,
                None => {
                    return None;
                },
            };
            let hash_string = match get_field_str(ms, "hashString") {
                Some(x) => x,
                None => {
                    return None;
                },
            };
            let id = match get_field_i32(ms, "id") {
                Some(x) => x,
                None => {
                    return None;
                },
            };
            let left_until_done = match get_field_i32(ms, "leftUntilDone") {
                Some(x) => x,
                None => {
                    return None;
                },
            };
            let name = match get_field_str(ms, "name") {
                Some(x) => x,
                None => {
                    return None;
                },
            };
            let peer_limit = match get_field_i32(ms, "peer-limit") {
                Some(x) => x,
                None => {
                    return None;
                },
            };
            let percent_done = match get_field_num_text(ms, "percentDone") {
                Some(x) => x,
                None => {
                    return None;
                },
            };
            let rate_download = match get_field_i32(ms, "rateDownload") {
                Some(x) => x,
                None => {
                    return None;
                },
            };
            let size_when_done = match get_field_i32(ms, "sizeWhenDone") {
                Some(x) => x,
                None => {
                    return None;
                },
            };
            let status = match get_field_i32(ms, "status") {
                Some(x) => x,
                None => {
                    return None;
                },
            };
            let total_size = match get_field_i32(ms, "totalSize") {
                Some(x) => x,
                None => {
                    return None;
                },
            };
            Some(
                Torrent {
                    error,
                    error_string,
                    eta,
                    hash_string,
                    id,
                    left_until_done,
                    name,
                    peer_limit,
                    percent_done,
                    rate_download,
                    size_when_done,
                    status,
                    total_size,
                },
            )
        },
        _ => None,
    }
}

/// Models of a list of torrent records.
pub open spec fn torrents_view(l: Seq<Torrent>) -> Seq<TorrentV> {
    l.map_values(|t: Torrent| t@)
}

/// The torrent records a list of JSON values denotes, if every one does.
pub open spec fn torrents_of_list(l: Seq<JsonV>) -> Option<Seq<TorrentV>>
    decreases l.len(),
{
    if l.len() == 0 {
        Some(Seq::empty())
    } else {
        match torrents_of_list(l.drop_last()) {
            Some(ts) => match torrent_of_jv(l.last()) {
                Some(t) => Some(ts.push(t)),
                None => None,
            },
            None => None,
        }
    }
}

fn torrents_of_json_list(l: &Vec<Json>) -> (r: Option<Vec<Torrent>>)
    ensures
        match r {
            Some(ts) => torrents_of_list(jv_list(l@)) == Some(torrents_view(ts@)),
            None => torrents_of_list(jv_list(l@)) is None,
        },
{
    let mut out: Vec<Torrent> = Vec::new();
    let n = l.len();
    let mut i: usize = 0;
    proof {
        lemma_jv_list_len(l@);
    }
    while i < n
        invariant
            n == l@.len(),
            jv_list(l@).len() == n,
            i <= n,
            out@.len() == i,
            torrents_of_list(jv_list(l@).subrange(0, i as int)) == Some(torrents_view(out@)),
        decreases n - i,
    {
        proof {
            lemma_jv_list_index(l@, i as int);
        }
        match torrent_of_json(&l[i]) {
            Some(t) => {
                out.push(t);
                proof {
                    let pre = jv_list(l@).subrange(0, i as int);
                    let post = jv_list(l@).subrange(0, i + 1int);
                    assert(post.drop_last() =~= pre);
                    assert(torrents_view(out@) =~= torrents_view(out@.drop_last()).push(
                        out@.last()@,
                    ));
                }
            },
            None => {
                proof {
                    lemma_torrents_of_list_prefix_none(jv_list(l@), i as int);
                }
                return None;
            },
        }
        i = i + 1;
    }
    proof {
        assert(jv_list(l@).subrange(0, n as int) =~= jv_list(l@));
    }
    Some(out)
}

/// If one element denotes no record, the whole list does not.
proof fn lemma_torrents_of_list_prefix_none(l: Seq<JsonV>, i: int)
    requires
        0 <= i < l.len(),
        torrent_of_jv(l[i]) is None,
    ensures
        torrents_of_list(l) is None,
    decreases l.len(),
{
    if l.len() > 0 {
        if i < l.len() - 1 {
            lemma_torrents_of_list_prefix_none(l.drop_last(), i);
        }
    }
}

/// Model of a session query's result.
pub struct SessionGetV {
    pub rpc_version: Option<u32>,
    pub config_dir: Option<Seq<char>>,
}

/// Result of a session query; fields the daemon left out are `None`.
#[derive(Debug, Clone, PartialEq, Eq)]
pub struct SessionGet {
    pub rpc_version: Option<u32>,
    pub config_dir: Option<String>,
}

impl View for SessionGet {
    type V = SessionGetV;

    open spec fn view(&self) -> SessionGetV {
        SessionGetV { rpc_version: self.rpc_version, config_dir: ov(self.config_dir) }
    }
}

/// Model of an add request's result.
pub struct TorrentAddV {
    pub torrent_added: Option<TorrentV>,
    pub torrent_duplicate: Option<TorrentV>,
}

/// Result of an add request: the record added, or the one it duplicates.
#[derive(Debug, Clone, PartialEq, Eq)]
pub struct TorrentAdd {
    pub torrent_added: Option<Torrent>,
    pub torrent_duplicate: Option<Torrent>,
}

/// The model of an optional torrent record.
pub open spec fn otv(o: Option<Torrent>) -> Option<TorrentV> {
    match o {
        Some(t) => Some(t@),
        None => None,
    }
}

impl View for TorrentAdd {
    type V = TorrentAddV;

    open spec fn view(&self) -> TorrentAddV {
        TorrentAddV {
            torrent_added: otv(self.torrent_added),
            torrent_duplicate: otv(self.torrent_duplicate),
        }
    }
}

/// Model of a torrent query's result.
pub struct TorrentGetV {
    pub torrents: Seq<TorrentV>,
    pub removed: Option<Seq<TorrentV>>,
}

/// Result of a torrent query: the matching records, and, for a recently
/// active query, the ones recently removed.
#[derive(Debug, Clone, PartialEq, Eq)]
pub struct TorrentGet {
    pub torrents: Vec<Torrent>,
    pub removed: Option<Vec<Torrent>>,
}

impl View for TorrentGet {
    type V = TorrentGetV;

    open spec fn view(&self) -> TorrentGetV {
        TorrentGetV {
            torrents: torrents_view(self.torrents@),
            removed: match self.removed {
                Some(l) => Some(torrents_view(l@)),
                None => None,
            },
        }
    }
}

/// A result shape that can be read out of a response's `arguments` value.
/// [`ResponseArgs::of_json`] must follow the type's own
/// [`ResponseArgs::spec_of_json`] exactly.
pub trait ResponseArgs: View + Sized {
    /// The result the `arguments` value denotes, if it has this shape.
    spec fn spec_of_json(v: JsonV) -> Option<Self::V>;

    /// Reads the result out of the `arguments` value.
    fn of_json(j: &Json) -> (r: Option<Self>)
        ensures
            match r {
                Some(a) => Self::spec_of_json(jv(*j)) == Some(a@),
                None => Self::spec_of_json(jv(*j)) is None,
            },
    ;
}

impl ResponseArgs for SessionGet {
    open spec fn spec_of_json(v: JsonV) -> Option<SessionGetV> {
        match v {
            JsonV::Obj(ms) => {
                if field_u32(ms, "rpc-version"@) is Some && field_str(ms, "config-dir"@) is Some {
                    Some(
                        SessionGetV {
                            rpc_version: field_u32(ms, "rpc-version"@).unwrap(),
                            config_dir: field_str(ms, "config-dir"@).unwrap(),
                        },
                    )
                } else {
                    None
                }
            },
            _ => None,
        }
    }

    fn of_json(j: &Json) -> (r: Option<Self>)
    {
        match j {
            Json::Obj(ms) => {
                let rpc_version = match get_field_u32(ms, "rpc-version") {
                    Some(x) => x,
                    None => {
                        return None;
                    },
                };
                let config_dir = match get_field_str(ms, "config-dir") {
                    Some(x) => x,
                    None => {
                        return None;
                    },
                };
                Some(SessionGet { rpc_version, config_dir })
            },
            _ => None,
        }
    }
}

/// An optional torrent-record field, in the same shape as [`field_u32`].
pub open spec fn field_torrent(ms: Seq<(Seq<char>, JsonV)>, key: Seq<char>) -> Option<
    Option<TorrentV>,
> {
    match obj_get(ms, key) {
        None => Some(None),
        Some(JsonV::Null) => Some(None),
        Some(v) => match torrent_of_jv(v) {
            Some(t) => Some(Some(t)),
            None => None,
        },
    }
}

fn get_field_torrent(ms: &Vec<(String, Json)>, key: &str) -> (r: Option<Option<Torrent>>)
    ensures
        match r {
            Some(t) => field_torrent(jv_members(ms@), key@) == Some(otv(t)),
            None => field_torrent(jv_members(ms@), key@) is None,
        },
{
    match obj_field(ms, key) {
        None => Some(None),
        Some(Json::Null) => Some(None),
        Some(j) => match torrent_of_json(j) {
            Some(t) => Some(Some(t)),
            None => None,
        },
    }
}

impl ResponseArgs for TorrentAdd {
    open spec fn spec_of_json(v: JsonV) -> Option<TorrentAddV> {
        match v {
            JsonV::Obj(ms) => {
                if field_torrent(ms, "torrent-added"@) is Some && field_torrent(
                    ms,
                    "torrent-duplicate"@,
                ) is Some {
                    Some(
                        TorrentAddV {
                            torrent_added: field_torrent(ms, "torrent-added"@).unwrap(),
                            torrent_duplicate: field_torrent(ms, "torrent-duplicate"@).unwrap(),
                        },
                    )
                } else {
                    None
                }
            },
            _ => None,
        }
    }

    fn of_json(j: &Json) -> (r: Option<Self>)
    {
        match j {
            Json::Obj(ms) => {
                let torrent_added = match get_field_torrent(ms, "torrent-added") {
                    Some(x) => x,
                    None => {
                        return None;
                    },
                };
                let torrent_duplicate = match get_field_torrent(ms, "torrent-duplicate") {
                    Some(x) => x,
                    None => {
                        return None;
                    },
                };
                Some(TorrentAdd { torrent_added, torrent_duplicate })
            },
            _ => None,
        }
    }
}

impl ResponseArgs for TorrentGet {
    open spec fn spec_of_json(v: JsonV) -> Option<TorrentGetV> {
        match v {
            JsonV::Obj(ms) => {
                match obj_get(ms, "torrents"@) {
                    Some(JsonV::Arr(l)) => {
                        match torrents_of_list(l) {
                            Some(ts) => {
                                match obj_get(ms, "removed"@) {
                                    None => Some(TorrentGetV { torrents: ts, removed: None }),
                                    Some(JsonV::Null) => Some(
                                        TorrentGetV { torrents: ts, removed: None },
                                    ),
                                    Some(JsonV::Arr(rl)) => match torrents_of_list(rl) {
                                        Some(rs) => Some(
                                            TorrentGetV { torrents: ts, removed: Some(rs) },
                                        ),
                                        None => None,
                                    },
                                    Some(_) => None,
                                }
                            },
                            None => None,
                        }
                    },
                    _ => None,
                }
            },
            _ => None,
        }
    }

    fn of_json(j: &Json) -> (r: Option<Self>)
    {
        match j {
            Json::Obj(ms) => {
                let torrents = match obj_field(ms, "torrents") {
                    Some(Json::Arr(l)) => match torrents_of_json_list(l) {
                        Some(ts) => ts,
                        None => {
                            return None;
                        },
                    },
                    _ => {
                        return None;
                    },
                };
                let removed = match obj_field(ms, "removed") {
                    None => None,
                    Some(Json::Null) => None,
                    Some(Json::Arr(rl)) => match torrents_of_json_list(rl) {
                        Some(rs) => Some(rs),
                        None => {
                            return None;
                        },
                    },
                    Some(_) => {
                        return None;
                    },
                };
                Some(TorrentGet { torrents, removed })
            },
            _ => None,
        }
    }
}

/// A response envelope: the method-specific result, and the daemon's status
/// text, passed through uninterpreted.
#[derive(Debug, Clone, PartialEq, Eq)]
pub struct TransmissionResponse<A> {
    pub arguments: A,
    pub result: String,
}

/// The `arguments` value and `result` text a response body denotes, if it
/// parses as the envelope object.
pub open spec fn envelope_of(body: Seq<char>) -> Option<(JsonV, Seq<char>)> {
    match sp_json(body) {
        Some(JsonV::Obj(ms)) => {
            match (obj_get(ms, "arguments"@), obj_get(ms, "result"@)) {
                (Some(args), Some(JsonV::Str(res))) => Some((args, res)),
                _ => None,
            }
        },
        _ => None,
    }
}

/// Decodes a response body into a typed envelope. Succeeds exactly when the
/// body denotes an envelope whose `arguments` has the shape `A`.
pub fn decode_response<A: ResponseArgs>(body: &str) -> (r: Option<TransmissionResponse<A>>)
    ensures
        match r {
            Some(env) => {
                &&& envelope_of(body@) is Some
                &&& A::spec_of_json(envelope_of(body@).unwrap().0) == Some(env.arguments@)
                &&& env.result@ == envelope_of(body@).unwrap().1
            },
            None => envelope_of(body@) is None || A::spec_of_json(
                envelope_of(body@).unwrap().0,
            ) is None,
        },
{
    match parse_json(body) {
        Some(Json::Obj(ms)) => {
            let args_j = match obj_field(&ms, "arguments") {
                Some(x) => x,
                None => {
                    return None;
                },
            };
            let result = match obj_field(&ms, "result") {
                Some(Json::Str(t)) => t.clone(),
                _ => {
                    return None;
                },
            };
            match A::of_json(args_j) {
                Some(a) => Some(TransmissionResponse { arguments: a, result }),
                None => None,
            }
        },
        Some(_) => None,
        None => None,
    }
}

// ---------------------------------------------------------------------------
// Laws of the wire form.
// ---------------------------------------------------------------------------
/// Whether some member of an argument object carries the given key.
pub open spec fn has_key(ps: Seq<(Seq<char>, JsonV)>, key: Seq<char>) -> bool {
    exists|k: int| 0 <= k < ps.len() && (#[trigger] ps[k]).0 == key
}

proof fn lemma_has_key_add(x: Seq<(Seq<char>, JsonV)>, y: Seq<(Seq<char>, JsonV)>, key: Seq<char>)
    ensures
        has_key(x + y, key) == (has_key(x, key) || has_key(y, key)),
{
    if has_key(x, key) {
        let k = choose|k: int| 0 <= k < x.len() && (#[trigger] x[k]).0 == key;
        assert((x + y)[k].0 == key);
    }
    if has_key(y, key) {
        let k = choose|k: int| 0 <= k < y.len() && (#[trigger] y[k]).0 == key;
        assert((x + y)[x.len() + k].0 == key);
    }
    if has_key(x + y, key) {
        let k = choose|k: int| 0 <= k < (x + y).len() && (#[trigger] (x + y)[k]).0 == key;
        if k < x.len() {
            assert(x[k].0 == key);
        } else {
            assert(y[k - x.len()].0 == key);
        }
    }
}

proof fn lemma_has_key_opt(key: Seq<char>, v: Option<JsonV>, key2: Seq<char>)
    ensures
        has_key(opt_pair(key, v), key2) == (v is Some && key == key2),
{
    if v is Some && key == key2 {
        assert(opt_pair(key, v)[0].0 == key2);
    }
    if has_key(opt_pair(key, v), key2) {
        let k = choose|k: int|
            0 <= k < opt_pair(key, v).len() && (#[trigger] opt_pair(key, v)[k]).0 == key2;
        assert(opt_pair(key, v)[k].0 == key2);
    }
}

/// Which field of an add request a member key belongs to, and whether that
/// field is set.
proof fn lemma_add_pairs_key(a: TorrentAddArgs, key: Seq<char>)
    ensures
        has_key(torrent_add_pairs(a), key) == ((a.cookies is Some && key == "cookies"@) || (
        a.download_dir is Some && key == "download-dir"@) || (a.filename is Some && key
            == "filename"@) || (a.labels is Some && key == "labels"@) || (a.metainfo is Some && key
            == "metainfo"@) || (a.paused is Some && key == "paused"@) || (a.peer_limit is Some
            && key == "peer-limit"@) || (a.bandwidth_priority is Some && key
            == "bandwidth-priority"@) || (a.files_wanted is Some && key == "files-wanted"@) || (
        a.files_unwanted is Some && key == "files-unwanted"@) || (a.priority_high is Some && key
            == "priority-high"@) || (a.priority_low is Some && key == "priority-low"@) || (
        a.priority_normal is Some && key == "priority-normal"@)),
{
    let s1 = opt_pair("cookies"@, jstr_of(a.cookies));
    let s2 = opt_pair("download-dir"@, jstr_of(a.download_dir));
    let s3 = opt_pair("filename"@, jstr_of(a.filename));
    let s4 = opt_pair("labels"@, jstr_of(a.labels));
    let s5 = opt_pair("metainfo"@, jstr_of(a.metainfo));
    let s6 = opt_pair("paused"@, jstr_of(a.paused));
    let s7 = opt_pair("peer-limit"@, ju32_of(a.peer_limit));
    let s8 = opt_pair("bandwidth-priority"@, ju32_of(a.bandwidth_priority));
    let s9 = opt_pair("files-wanted"@, ju32s_of(a.files_wanted));
    let s10 = opt_pair("files-unwanted"@, ju32s_of(a.files_unwanted));
    let s11 = opt_pair("priority-high"@, ju32s_of(a.priority_high));
    let s12 = opt_pair("priority-low"@, ju32s_of(a.priority_low));
    let s13 = opt_pair("priority-normal"@, ju32s_of(a.priority_normal));
    lemma_has_key_opt("cookies"@, jstr_of(a.cookies), key);
    lemma_has_key_opt("download-dir"@, jstr_of(a.download_dir), key);
    lemma_has_key_opt("filename"@, jstr_of(a.filename), key);
    lemma_has_key_opt("labels"@, jstr_of(a.labels), key);
    lemma_has_key_opt("metainfo"@, jstr_of(a.metainfo), key);
    lemma_has_key_opt("paused"@, jstr_of(a.paused), key);
    lemma_has_key_opt("peer-limit"@, ju32_of(a.peer_limit), key);
    lemma_has_key_opt("bandwidth-priority"@, ju32_of(a.bandwidth_priority), key);
    lemma_has_key_opt("files-wanted"@, ju32s_of(a.files_wanted), key);
    lemma_has_key_opt("files-unwanted"@, ju32s_of(a.files_unwanted), key);
    lemma_has_key_opt("priority-high"@, ju32s_of(a.priority_high), key);
    lemma_has_key_opt("priority-low"@, ju32s_of(a.priority_low), key);
    lemma_has_key_opt("priority-normal"@, ju32s_of(a.priority_normal), key);
    lemma_has_key_add(s1, s2, key);
    lemma_has_key_add(s1 + s2, s3, key);
    lemma_has_key_add(s1 + s2 + s3, s4, key);
    lemma_has_key_add(s1 + s2 + s3 + s4, s5, key);
    lemma_has_key_add(s1 + s2 + s3 + s4 + s5, s6, key);
    lemma_has_key_add(s1 + s2 + s3 + s4 + s5 + s6, s7, key);
    lemma_has_key_add(s1 + s2 + s3 + s4 + s5 + s6 + s7, s8, key);
    lemma_has_key_add(s1 + s2 + s3 + s4 + s5 + s6 + s7 + s8, s9, key);
    lemma_has_key_add(s1 + s2 + s3 + s4 + s5 + s6 + s7 + s8 + s9, s10, key);
    lemma_has_key_add(s1 + s2 + s3 + s4 + s5 + s6 + s7 + s8 + s9 + s10, s11, key);
    lemma_has_key_add(s1 + s2 + s3 + s4 + s5 + s6 + s7 + s8 + s9 + s10 + s11, s12, key);
    lemma_has_key_add(s1 + s2 + s3 + s4 + s5 + s6 + s7 + s8 + s9 + s10 + s11 + s12, s13, key);
}

/// Law: an add request's argument object holds a member for exactly the
/// fields that are set — a field left unset is omitted entirely, under its
/// wire name.
#[verifier::rlimit(100)]
pub proof fn lemma_unset_add_fields_omitted(a: TorrentAddArgs)
    ensures
        has_key(torrent_add_pairs(a), "cookies"@) == (a.cookies is Some),
        has_key(torrent_add_pairs(a), "download-dir"@) == (a.download_dir is Some),
        has_key(torrent_add_pairs(a), "filename"@) == (a.filename is Some),
        has_key(torrent_add_pairs(a), "labels"@) == (a.labels is Some),
        has_key(torrent_add_pairs(a), "metainfo"@) == (a.metainfo is Some),
        has_key(torrent_add_pairs(a), "paused"@) == (a.paused is Some),
        has_key(torrent_add_pairs(a), "peer-limit"@) == (a.peer_limit is Some),
        has_key(torrent_add_pairs(a), "bandwidth-priority"@) == (a.bandwidth_priority is Some),
        has_key(torrent_add_pairs(a), "files-wanted"@) == (a.files_wanted is Some),
        has_key(torrent_add_pairs(a), "files-unwanted"@) == (a.files_unwanted is Some),
        has_key(torrent_add_pairs(a), "priority-high"@) == (a.priority_high is Some),
        has_key(torrent_add_pairs(a), "priority-low"@) == (a.priority_low is Some),
        has_key(torrent_add_pairs(a), "priority-normal"@) == (a.priority_normal is Some),
{
    reveal_strlit("cookies");
    reveal_strlit("download-dir");
    reveal_strlit("filename");
    reveal_strlit("labels");
    reveal_strlit("metainfo");
    reveal_strlit("paused");
    reveal_strlit("peer-limit");
    reveal_strlit("bandwidth-priority");
    reveal_strlit("files-wanted");
    reveal_strlit("files-unwanted");
    reveal_strlit("priority-high");
    reveal_strlit("priority-low");
    reveal_strlit("priority-normal");
    assert("cookies"@.len() == 7);
    assert("cookies"@[0] == 'c');
    assert("download-dir"@.len() == 12);
    assert("download-dir"@[0] == 'd');
    assert("filename"@.len() == 8);
    assert("filename"@[0] == 'f');
    assert("labels"@.len() == 6);
    assert("labels"@[0] == 'l');
    assert("metainfo"@.len() == 8);
    assert("metainfo"@[0] == 'm');
    assert("paused"@.len() == 6);
    assert("paused"@[0] == 'p');
    assert("peer-limit"@.len() == 10);
    assert("peer-limit"@[0] == 'p');
    assert("bandwidth-priority"@.len() == 18);
    assert("bandwidth-priority"@[0] == 'b');
    assert("files-wanted"@.len() == 12);
    assert("files-wanted"@[0] == 'f');
    assert("files-unwanted"@.len() == 14);
    assert("files-unwanted"@[0] == 'f');
    assert("priority-high"@.len() == 13);
    assert("priority-high"@[0] == 'p');
    assert("priority-low"@.len() == 12);
    assert("priority-low"@[0] == 'p');
    assert("priority-normal"@.len() == 15);
    assert("priority-normal"@[0] == 'p');
    assert(has_key(torrent_add_pairs(a), "cookies"@) == (a.cookies is Some)) by {
        lemma_add_pairs_key(a, "cookies"@);
    }
    assert(has_key(torrent_add_pairs(a), "download-dir"@) == (a.download_dir is Some)) by {
        lemma_add_pairs_key(a, "download-dir"@);
    }
    assert(has_key(torrent_add_pairs(a), "filename"@) == (a.filename is Some)) by {
        lemma_add_pairs_key(a, "filename"@);
    }
    assert(has_key(torrent_add_pairs(a), "labels"@) == (a.labels is Some)) by {
        lemma_add_pairs_key(a, "labels"@);
    }
    assert(has_key(torrent_add_pairs(a), "metainfo"@) == (a.metainfo is Some)) by {
        lemma_add_pairs_key(a, "metainfo"@);
    }
    assert(has_key(torrent_add_pairs(a), "paused"@) == (a.paused is Some)) by {
        lemma_add_pairs_key(a, "paused"@);
    }
    assert(has_key(torrent_add_pairs(a), "peer-limit"@) == (a.peer_limit is Some)) by {
        lemma_add_pairs_key(a, "peer-limit"@);
    }
    assert(has_key(torrent_add_pairs(a), "bandwidth-priority"@) == (a.bandwidth_priority is Some)) by {
        lemma_add_pairs_key(a, "bandwidth-priority"@);
    }
    assert(has_key(torrent_add_pairs(a), "files-wanted"@) == (a.files_wanted is Some)) by {
        lemma_add_pairs_key(a, "files-wanted"@);
    }
    assert(has_key(torrent_add_pairs(a), "files-unwanted"@) == (a.files_unwanted is Some)) by {
        lemma_add_pairs_key(a, "files-unwanted"@);
    }
    assert(has_key(torrent_add_pairs(a), "priority-high"@) == (a.priority_high is Some)) by {
        lemma_add_pairs_key(a, "priority-high"@);
    }
    assert(has_key(torrent_add_pairs(a), "priority-low"@) == (a.priority_low is Some)) by {
        lemma_add_pairs_key(a, "priority-low"@);
    }
    assert(has_key(torrent_add_pairs(a), "priority-normal"@) == (a.priority_normal is Some)) by {
        lemma_add_pairs_key(a, "priority-normal"@);
    }
}

/// Law: no member of an argument object is ever the `null` value: an unset
/// field is omitted, never written as `null`.
pub proof fn lemma_no_null_members(a: Args)
    ensures
        forall|k: int|
            0 <= k < args_pairs(a).len() ==> !((#[trigger] args_pairs(a)[k]).1 is Null),
{
}

/// Law: the two query methods omit their optional argument fields the same
/// way: a member appears exactly for a set field, and never as `null`.
pub proof fn lemma_unset_get_fields_omitted(sg: SessionGetArgs, tg: TorrentGetArgs)
    ensures
        has_key(session_get_pairs(sg), "fields"@) == (sg.fields is Some),
        has_key(torrent_get_pairs(tg), "fields"@) == (tg.fields is Some),
        has_key(torrent_get_pairs(tg), "ids"@) == (tg.ids is Some),
        forall|k: int|
            0 <= k < session_get_pairs(sg).len() ==> !((#[trigger] session_get_pairs(sg)[k]).1
                is Null),
        forall|k: int|
            0 <= k < torrent_get_pairs(tg).len() ==> !((#[trigger] torrent_get_pairs(tg)[k]).1
                is Null),
{
    reveal_strlit("fields");
    reveal_strlit("ids");
    assert("fields"@.len() == 6);
    assert("ids"@.len() == 3);
    if sg.fields is Some {
        assert(session_get_pairs(sg)[0].0 == "fields"@);
    }
    if tg.fields is Some {
        assert(torrent_get_pairs(tg)[0].0 == "fields"@);
    }
    if tg.ids is Some {
        let ps = torrent_get_pairs(tg);
        assert(ps[ps.len() - 1].0 == "ids"@);
    }
}

/// Law: a request without arguments has no `arguments` member at all — its
/// object holds exactly the `method` member.
pub proof fn lemma_no_arguments_member_when_absent(m: Method)
    ensures
        request_jv(m, None) matches JsonV::Obj(ms) && ms.len() == 1 && ms[0].0 == "method"@,
{
}

} // verus!
