//! The message envelope codec: outbound JSON-RPC-shaped request
//! envelopes, and the decoding of inbound envelopes.
use vstd::prelude::*;
use crate::RoomId;
use crate::json::{
    JsonValue, Jv, jview, jviews, jview_fields, jtext, canonical, canonical_arr, canonical_obj,
    distinct_keys, jdepth, jdepth_arr, jdepth_obj, lookup, lemma_jview_fields,
    lemma_lookup_prefix, json_chars, parse_json, json_of, str_to_chars, chars_to_string, chars_eq,
    clone_chars,
};
use crate::peer::{PeerId, peer_hex_of};

verus! {

/// Decoding an inbound envelope can fail one way: the text is not the
/// JSON shape the protocol expects.  The failure is reported, never a
/// process abort.
#[derive(Clone, Copy, Debug, PartialEq, Eq, Structural)]
pub enum ParseError {
    Malformed,
}

/// The `jsonrpc` key.
pub open spec fn k_jsonrpc() -> Seq<char> {
    seq!['j', 's', 'o', 'n', 'r', 'p', 'c']
}

/// The `id` key.
pub open spec fn k_id() -> Seq<char> {
    seq!['i', 'd']
}

/// The `gid` key: the room/group identifier an envelope is routed by.
pub open spec fn k_gid() -> Seq<char> {
    seq!['g', 'i', 'd']
}

/// The `method` key.
pub open spec fn k_method() -> Seq<char> {
    seq!['m', 'e', 't', 'h', 'o', 'd']
}

/// The `params` key.
pub open spec fn k_params() -> Seq<char> {
    seq!['p', 'a', 'r', 'a', 'm', 's']
}

/// The `peer` key.
pub open spec fn k_peer() -> Seq<char> {
    seq!['p', 'e', 'e', 'r']
}

/// The `result` key.
pub open spec fn k_result() -> Seq<char> {
    seq!['r', 'e', 's', 'u', 'l', 't']
}

/// The text `2.0`.
pub open spec fn v20() -> Seq<char> {
    seq!['2', '.', '0']
}

/// The fields of an outbound request envelope, in the order they are
/// written: the JSON-RPC preamble, the room id as `gid`, the method,
/// its params, and the sender's peer tag.  Outbound envelopes carry no
/// `result`.
pub open spec fn request_fields(
    method: Seq<char>,
    params: Seq<Jv>,
    peer: Seq<char>,
    room: RoomId,
) -> Seq<(Seq<char>, Jv)> {
    seq![
        (k_jsonrpc(), Jv::Text(v20())),
        (k_id(), Jv::Uint(0)),
        (k_gid(), Jv::Uint(room)),
        (k_method(), Jv::Text(method)),
        (k_params(), Jv::Arr(params)),
        (k_peer(), Jv::Text(peer)),
    ]
}

/// An outbound request envelope, as a JSON value.
pub open spec fn request_jv(method: Seq<char>, params: Seq<Jv>, peer: Seq<char>, room: RoomId) -> Jv {
    Jv::Obj(request_fields(method, params, peer, room))
}

/// The wire text of an outbound request envelope.
pub open spec fn request_text(
    method: Seq<char>,
    params: Seq<Jv>,
    peer: Seq<char>,
    room: RoomId,
) -> Seq<char> {
    jtext(request_jv(method, params, peer, room))
}

/// The field list of an object value.
pub open spec fn obj_fields(v: Jv) -> Seq<(Seq<char>, Jv)> {
    v->Obj_0
}

/// What an inbound response envelope must hold: an object with a
/// `result` array, a `gid` number and a `method` string.
pub open spec fn response_ok(v: Jv) -> bool {
    &&& v is Obj
    &&& lookup(obj_fields(v), k_result()) matches Some(r) && r is Arr
    &&& lookup(obj_fields(v), k_gid()) matches Some(g) && g is Uint
    &&& lookup(obj_fields(v), k_method()) matches Some(m) && m is Text
}

/// The room id of a response envelope.
pub open spec fn response_gid(v: Jv) -> u64 {
    lookup(obj_fields(v), k_gid())->0->Uint_0
}

/// The method name of a response envelope.
pub open spec fn response_method(v: Jv) -> Seq<char> {
    lookup(obj_fields(v), k_method())->0->Text_0
}

/// The result payload of a response envelope.
pub open spec fn response_result(v: Jv) -> Seq<Jv> {
    lookup(obj_fields(v), k_result())->0->Arr_0
}

/// What a request envelope must hold when read back: an object with a
/// `gid` number, a `method` string, a `params` array and a `peer`
/// string.
pub open spec fn request_ok(v: Jv) -> bool {
    &&& v is Obj
    &&& lookup(obj_fields(v), k_gid()) matches Some(g) && g is Uint
    &&& lookup(obj_fields(v), k_method()) matches Some(m) && m is Text
    &&& lookup(obj_fields(v), k_params()) matches Some(p) && p is Arr
    &&& lookup(obj_fields(v), k_peer()) matches Some(q) && q is Text
}

/// The room id of a request envelope.
pub open spec fn request_gid(v: Jv) -> u64 {
    lookup(obj_fields(v), k_gid())->0->Uint_0
}

/// The method name of a request envelope.
pub open spec fn request_method(v: Jv) -> Seq<char> {
    lookup(obj_fields(v), k_method())->0->Text_0
}

/// The params of a request envelope.
pub open spec fn request_params(v: Jv) -> Seq<Jv> {
    lookup(obj_fields(v), k_params())->0->Arr_0
}

/// The peer tag of a request envelope.
pub open spec fn request_peer(v: Jv) -> Seq<char> {
    lookup(obj_fields(v), k_peer())->0->Text_0
}

/// Builds the wire text of a request envelope around an explicit peer
/// tag, the anonymous zero-address tag included.  Serialization cannot
/// fail: the writer is total on the model.
pub fn build_request_with_tag(method: &str, params: Vec<JsonValue>, peer_tag: &str, room: RoomId)
    -> (r: String)
    ensures
        r@ == request_text(method@, jviews(params@), peer_tag@, room),
{
    let ghost params_v = params@;
    let mut fields: Vec<(Vec<char>, JsonValue)> = Vec::new();
    fields.push((str_to_chars("jsonrpc"), JsonValue::Text(str_to_chars("2.0"))));
    fields.push((str_to_chars("id"), JsonValue::Uint(0)));
    fields.push((str_to_chars("gid"), JsonValue::Uint(room)));
    fields.push((str_to_chars("method"), JsonValue::Text(str_to_chars(method))));
    fields.push((str_to_chars("params"), JsonValue::Array(params)));
    fields.push((str_to_chars("peer"), JsonValue::Text(str_to_chars(peer_tag))));
    let obj = JsonValue::Object(fields);
    proof {
        reveal_strlit("jsonrpc");
        reveal_strlit("2.0");
        reveal_strlit("id");
        reveal_strlit("gid");
        reveal_strlit("method");
        reveal_strlit("params");
        reveal_strlit("peer");
        let fs = obj->Object_0@;
        lemma_jview_fields(fs);
        assert(fs[0].0@ =~= k_jsonrpc());
        assert(fs[0].1->Text_0@ =~= v20());
        assert(fs[1].0@ =~= k_id());
        assert(fs[2].0@ =~= k_gid());
        assert(fs[3].0@ =~= k_method());
        assert(fs[4].0@ =~= k_params());
        assert(fs[5].0@ =~= k_peer());
        assert(jview_fields(fs) =~= request_fields(method@, jviews(params_v), peer_tag@, room));
    }
    let chars = json_chars(&obj);
    chars_to_string(&chars)
}

/// Builds the wire text of a request envelope: the JSON-RPC preamble
/// with id 0, the room id as `gid`, the method and params, and a
/// `peer` field holding the hex form of the caller's identifier.
pub fn build_request(method: &str, params: Vec<JsonValue>, peer: &PeerId, room: RoomId) -> (r:
    String)
    requires
        peer.wf(),
    ensures
        r@ == request_text(method@, jviews(params@), peer_hex_of(peer.bytes@), room),
{
    let hex = peer.to_hex();
    build_request_with_tag(method, params, hex.as_str(), room)
}

/// Finds the first field with the given key, reporting what `lookup`
/// yields on the object's model.
pub(crate) fn find_key(fields: &Vec<(Vec<char>, JsonValue)>, key: &Vec<char>) -> (r: Option<usize>)
    ensures
        match r {
            Some(i) => i < fields@.len() && fields@[i as int].0@ == key@ && lookup(
                jview_fields(fields@),
                key@,
            ) == Some(jview(fields@[i as int].1)),
            None => lookup(jview_fields(fields@), key@) is None,
        },
{
    proof {
        lemma_jview_fields(fields@);
    }
    let ghost fs = jview_fields(fields@);
    let mut i: usize = 0;
    while i < fields.len()
        invariant
            i <= fields@.len(),
            fs == jview_fields(fields@),
            fs.len() == fields@.len(),
            forall|k: int| 0 <= k < fields@.len() ==> fs[k] == (fields@[k].0@, jview(fields@[k].1)),
            forall|k: int| 0 <= k < i ==> fs[k].0 != key@,
        decreases fields@.len() - i,
    {
        if chars_eq(&fields[i].0, key) {
            proof {
                lemma_lookup_prefix(fs, key@, i as int);
                assert(fs.skip(i as int)[0] == fs[i as int]);
            }
            return Some(i);
        }
        i = i + 1;
    }
    proof {
        lemma_lookup_prefix(fs, key@, fields@.len() as int);
        assert(fs.skip(fields@.len() as int) =~= Seq::<(Seq<char>, Jv)>::empty());
    }
    None
}

/// Decodes a response envelope that has already been parsed into a
/// JSON value: yields the room id, the method name and the result
/// payload exactly when the value has the response shape, and a
/// `Malformed` error otherwise.
pub fn extract_response(j: JsonValue) -> (r: Result<(RoomId, String, Vec<JsonValue>), ParseError>)
    ensures
        response_ok(jview(j)) ==> (r matches Ok(t) && t.0 == response_gid(jview(j)) && t.1@
            == response_method(jview(j)) && jviews(t.2@) == response_result(jview(j))),
        !response_ok(jview(j)) ==> r matches Err(ParseError::Malformed),
{
    let mut fields = match j {
        JsonValue::Object(f) => f,
        _ => {
            return Err(ParseError::Malformed);
        },
    };
    let ghost fs = jview_fields(fields@);
    let kg = str_to_chars("gid");
    let km = str_to_chars("method");
    let kr = str_to_chars("result");
    proof {
        reveal_strlit("gid");
        reveal_strlit("method");
        reveal_strlit("result");
        assert(kg@ =~= k_gid());
        assert(km@ =~= k_method());
        assert(kr@ =~= k_result());
    }
    let gid: u64 = match find_key(&fields, &kg) {
        Some(i) => {
            match &fields[i].1 {
                JsonValue::Uint(u) => *u,
                _ => {
                    return Err(ParseError::Malformed);
                },
            }
        },
        None => {
            return Err(ParseError::Malformed);
        },
    };
    let method: String = match find_key(&fields, &km) {
        Some(i) => {
            match &fields[i].1 {
                JsonValue::Text(t) => {
                    let c = clone_chars(t);
                    chars_to_string(&c)
                },
                _ => {
                    return Err(ParseError::Malformed);
                },
            }
        },
        None => {
            return Err(ParseError::Malformed);
        },
    };
    match find_key(&fields, &kr) {
        Some(i) => {
            let is_arr = match &fields[i].1 {
                JsonValue::Array(_) => true,
                _ => false,
            };
            if !is_arr {
                return Err(ParseError::Malformed);
            }
            let pair = fields.remove(i);
            match pair.1 {
                JsonValue::Array(a) => Ok((gid, method, a)),
                _ => {
                    assert(false);
                    Err(ParseError::Malformed)
                },
            }
        },
        None => Err(ParseError::Malformed),
    }
}

/// Decodes a request envelope that has already been parsed into a JSON
/// value: yields the room id, method, params and peer tag exactly when
/// the value has the request shape, and a `Malformed` error otherwise.
pub fn extract_request(j: JsonValue) -> (r: Result<
    (RoomId, String, Vec<JsonValue>, String),
    ParseError,
>)
    ensures
        request_ok(jview(j)) ==> (r matches Ok(t) && t.0 == request_gid(jview(j)) && t.1@
            == request_method(jview(j)) && jviews(t.2@) == request_params(jview(j)) && t.3@
            == request_peer(jview(j))),
        !request_ok(jview(j)) ==> r matches Err(ParseError::Malformed),
{
    let mut fields = match j {
        JsonValue::Object(f) => f,
        _ => {
            return Err(ParseError::Malformed);
        },
    };
    let kg = str_to_chars("gid");
    let km = str_to_chars("method");
    let kp = str_to_chars("params");
    let kq = str_to_chars("peer");
    proof {
        reveal_strlit("gid");
        reveal_strlit("method");
        reveal_strlit("params");
        reveal_strlit("peer");
        assert(kg@ =~= k_gid());
        assert(km@ =~= k_method());
        assert(kp@ =~= k_params());
        assert(kq@ =~= k_peer());
    }
    let gid: u64 = match find_key(&fields, &kg) {
        Some(i) => {
            match &fields[i].1 {
                JsonValue::Uint(u) => *u,
                _ => {
                    return Err(ParseError::Malformed);
                },
            }
        },
        None => {
            return Err(ParseError::Malformed);
        },
    };
    let method: String = match find_key(&fields, &km) {
        Some(i) => {
            match &fields[i].1 {
                JsonValue::Text(t) => {
                    let c = clone_chars(t);
                    chars_to_string(&c)
                },
                _ => {
                    return Err(ParseError::Malformed);
                },
            }
        },
        None => {
            return Err(ParseError::Malformed);
        },
    };
    let peer: String = match find_key(&fields, &kq) {
        Some(i) => {
            match &fields[i].1 {
                JsonValue::Text(t) => {
                    let c = clone_chars(t);
                    chars_to_string(&c)
                },
                _ => {
                    return Err(ParseError::Malformed);
                },
            }
        },
        None => {
            return Err(ParseError::Malformed);
        },
    };
    match find_key(&fields, &kp) {
        Some(i) => {
            let is_arr = match &fields[i].1 {
                JsonValue::Array(_) => true,
                _ => false,
            };
            if !is_arr {
                return Err(ParseError::Malformed);
            }
            let pair = fields.remove(i);
            match pair.1 {
                JsonValue::Array(a) => Ok((gid, method, a, peer)),
                _ => {
                    assert(false);
                    Err(ParseError::Malformed)
                },
            }
        },
        None => Err(ParseError::Malformed),
    }
}

/// What `parse_response` yields when the input is the canonical text
/// of a canonical value `v`.
pub open spec fn response_of(v: Jv, r: Result<(RoomId, String, Vec<JsonValue>), ParseError>) -> bool {
    if response_ok(v) {
        r matches Ok(t) && t.0 == response_gid(v) && t.1@ == response_method(v) && jviews(t.2@)
            == response_result(v)
    } else {
        r matches Err(ParseError::Malformed)
    }
}

/// Parses an inbound response envelope.  Malformed text — not JSON at
/// all, no object, no `result` array, or `gid`/`method` absent or of
/// the wrong type — yields a `Malformed` error, never an abort.  The
/// outcome is a function of the text alone: a failed parse yields the
/// typed error, a successful one is decided by the parsed value.
pub fn parse_response(msg: &str) -> (r: Result<(RoomId, String, Vec<JsonValue>), ParseError>)
    ensures
        (match json_of(msg@) {
            Option::None => r matches Err(ParseError::Malformed),
            Option::Some(v) => response_of(v, r),
        }),
        forall|v: Jv|
            canonical(v) && jdepth(v) <= 64 && msg@ == #[trigger] jtext(v) ==> response_of(v, r),
{
    match parse_json(msg) {
        None => {
            let r = Err::<(RoomId, String, Vec<JsonValue>), ParseError>(ParseError::Malformed);
            proof {
                assert forall|v: Jv|
                    canonical(v) && jdepth(v) <= 64 && msg@ == #[trigger] jtext(v) implies
                response_of(v, r) by {}
            }
            r
        },
        Some(j) => {
            let r = extract_response(j);
            proof {
                assert forall|v: Jv|
                    canonical(v) && jdepth(v) <= 64 && msg@ == #[trigger] jtext(v) implies
                response_of(v, r) by {
                    assert(jview(j) == v);
                }
            }
            r
        },
    }
}

/// What `parse_request` yields when the input is the canonical text of
/// a canonical value `v`.
pub open spec fn request_of(
    v: Jv,
    r: Result<(RoomId, String, Vec<JsonValue>, String), ParseError>,
) -> bool {
    if request_ok(v) {
        r matches Ok(t) && t.0 == request_gid(v) && t.1@ == request_method(v) && jviews(t.2@)
            == request_params(v) && t.3@ == request_peer(v)
    } else {
        r matches Err(ParseError::Malformed)
    }
}

/// Parses a request envelope, the decoding the remote party applies to
/// the first frame of a connection.  Same error discipline as
/// `parse_response`: the outcome is a function of the text alone.
pub fn parse_request(msg: &str) -> (r: Result<(RoomId, String, Vec<JsonValue>, String), ParseError>)
    ensures
        (match json_of(msg@) {
            Option::None => r matches Err(ParseError::Malformed),
            Option::Some(v) => request_of(v, r),
        }),
        forall|v: Jv|
            canonical(v) && jdepth(v) <= 64 && msg@ == #[trigger] jtext(v) ==> request_of(v, r),
{
    match parse_json(msg) {
        None => {
            let r = Err::<(RoomId, String, Vec<JsonValue>, String), ParseError>(
                ParseError::Malformed,
            );
            proof {
                assert forall|v: Jv|
                    canonical(v) && jdepth(v) <= 64 && msg@ == #[trigger] jtext(v) implies
                request_of(v, r) by {}
            }
            r
        },
        Some(j) => {
            let r = extract_request(j);
            proof {
                assert forall|v: Jv|
                    canonical(v) && jdepth(v) <= 64 && msg@ == #[trigger] jtext(v) implies
                request_of(v, r) by {
                    assert(jview(j) == v);
                }
            }
            r
        },
    }
}

/// The `connect` method name.
pub open spec fn m_connect() -> Seq<char> {
    seq!['c', 'o', 'n', 'n', 'e', 'c', 't']
}

/// The authenticated first frame of a session connection: a `connect`
/// request with empty params for the given room, identifying the peer.
/// The remote party is expected to validate the peer/room pairing
/// before accepting further traffic.
pub fn connect_message(peer: &PeerId, room: RoomId) -> (r: String)
    requires
        peer.wf(),
    ensures
        r@ == request_text(m_connect(), Seq::<Jv>::empty(), peer_hex_of(peer.bytes@), room),
{
    let params: Vec<JsonValue> = Vec::new();
    let ghost pv = params@;
    let msg = build_request("connect", params, peer, room);
    proof {
        reveal_strlit("connect");
        assert("connect"@ =~= m_connect());
        assert(jviews(pv) =~= Seq::<Jv>::empty());
    }
    msg
}

/// Law: the envelope codec round-trips.  For every method, params,
/// peer tag and room id (params canonical and of bounded nesting), the
/// built request is a canonical value within the parser's depth bound,
/// it has the request shape, and reading it back yields exactly the
/// room id, method, params and peer that went in — while, carrying no
/// `result` field, it is not a response envelope.  Together with the
/// contracts of `build_request` and `parse_request`, parsing a built
/// request recovers every field it defines.
pub proof fn lemma_request_round_trip(
    method: Seq<char>,
    params: Seq<Jv>,
    peer: Seq<char>,
    room: RoomId,
)
    requires
        canonical_arr(params),
        jdepth_arr(params) <= 62,
    ensures
        canonical(request_jv(method, params, peer, room)),
        jdepth(request_jv(method, params, peer, room)) <= 64,
        request_ok(request_jv(method, params, peer, room)),
        request_gid(request_jv(method, params, peer, room)) == room,
        request_method(request_jv(method, params, peer, room)) == method,
        request_params(request_jv(method, params, peer, room)) == params,
        request_peer(request_jv(method, params, peer, room)) == peer,
        !response_ok(request_jv(method, params, peer, room)),
{
    let fs = request_fields(method, params, peer, room);
    assert(k_method()[1] == 'e' && k_params()[1] == 'a');
    assert(k_method()[0] == 'm' && k_params()[0] == 'p' && k_result()[0] == 'r');
    assert(distinct_keys(fs)) by {
        assert(forall|i: int, j: int|
            0 <= i < j < fs.len() && fs[i].0.len() != fs[j].0.len() ==> fs[i].0 != fs[j].0);
    }
    let f1 = fs.drop_first();
    let f2 = f1.drop_first();
    let f3 = f2.drop_first();
    let f4 = f3.drop_first();
    let f5 = f4.drop_first();
    assert(f1 =~= fs.skip(1));
    assert(f2 =~= fs.skip(2));
    assert(f3 =~= fs.skip(3));
    assert(f4 =~= fs.skip(4));
    assert(f5 =~= fs.skip(5));
    assert(f5.drop_first() =~= Seq::<(Seq<char>, Jv)>::empty());
    // The object is canonical: distinct keys, canonical field values.
    assert(canonical(Jv::Text(v20())) && canonical(Jv::Uint(0)) && canonical(Jv::Uint(room))
        && canonical(Jv::Text(method)) && canonical(Jv::Text(peer)));
    assert(canonical(Jv::Arr(params)));
    assert(f5[0] == (k_peer(), Jv::Text(peer)));
    assert(canonical(f5[0].1));
    assert(canonical_obj(f5.drop_first()));
    assert(canonical_obj(f5));
    assert(canonical_obj(f4));
    assert(canonical_obj(f3));
    assert(canonical_obj(f2));
    assert(canonical_obj(f1));
    assert(canonical_obj(fs));
    // Depth: one level for the object, one for the params array.
    assert(f1[0] == fs[1] && f2[0] == fs[2] && f3[0] == fs[3] && f4[0] == fs[4] && f5[0] == fs[5]);
    assert(jdepth(fs[0].1) == 1 && jdepth(fs[1].1) == 1 && jdepth(fs[2].1) == 1 && jdepth(
        fs[3].1,
    ) == 1 && jdepth(fs[5].1) == 1);
    assert(jdepth(fs[4].1) <= 63);
    assert(jdepth_obj(f5.drop_first()) == 0);
    assert(jdepth_obj(f5) == 1);
    assert(jdepth_obj(f4) <= 63);
    assert(jdepth_obj(f3) <= 63);
    assert(jdepth_obj(f2) <= 63);
    assert(jdepth_obj(f1) <= 63);
    assert(jdepth_obj(fs) <= 63);
    // Each defined field is found under its key.
    assert(fs[0].0 == k_jsonrpc() && fs[1].0 == k_id() && fs[2].0 == k_gid() && fs[3].0
        == k_method() && fs[4].0 == k_params() && fs[5].0 == k_peer());
    assert(k_jsonrpc().len() == 7 && k_id().len() == 2 && k_gid().len() == 3 && k_method().len()
        == 6 && k_params().len() == 6 && k_peer().len() == 4 && k_result().len() == 6);
    assert(lookup(f2, k_gid()) == Some(Jv::Uint(room)));
    assert(lookup(f1, k_gid()) == lookup(f2, k_gid()));
    assert(lookup(fs, k_gid()) == lookup(f1, k_gid()));
    assert(lookup(f3, k_method()) == Some(Jv::Text(method)));
    assert(lookup(f2, k_method()) == lookup(f3, k_method()));
    assert(lookup(f1, k_method()) == lookup(f2, k_method()));
    assert(lookup(fs, k_method()) == lookup(f1, k_method()));
    assert(lookup(f4, k_params()) == Some(Jv::Arr(params)));
    assert(lookup(f3, k_params()) == lookup(f4, k_params()));
    assert(lookup(f2, k_params()) == lookup(f3, k_params()));
    assert(lookup(f1, k_params()) == lookup(f2, k_params()));
    assert(lookup(fs, k_params()) == lookup(f1, k_params()));
    assert(lookup(f5, k_peer()) == Some(Jv::Text(peer)));
    assert(lookup(f4, k_peer()) == lookup(f5, k_peer()));
    assert(lookup(f3, k_peer()) == lookup(f4, k_peer()));
    assert(lookup(f2, k_peer()) == lookup(f3, k_peer()));
    assert(lookup(f1, k_peer()) == lookup(f2, k_peer()));
    assert(lookup(fs, k_peer()) == lookup(f1, k_peer()));
    // No field is named `result`.
    assert(lookup(f5.drop_first(), k_result()) is None);
    assert(lookup(f5, k_result()) == lookup(f5.drop_first(), k_result()));
    assert(lookup(f4, k_result()) == lookup(f5, k_result()));
    assert(lookup(f3, k_result()) == lookup(f4, k_result()));
    assert(lookup(f2, k_result()) == lookup(f3, k_result()));
    assert(lookup(f1, k_result()) == lookup(f2, k_result()));
    assert(lookup(fs, k_result()) == lookup(f1, k_result()));
}

} // verus!


