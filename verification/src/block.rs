use vstd::prelude::*;
use vstd::string::*;
use crate::codec::{decimal, json_escaped, i64_to_string, push_json_escaped};

verus! {

/// A block's body, fixed before the seal: a monotonic sequence number, the
/// creation time in seconds since the epoch, an opaque data string, and the
/// hash of the previous block's header.
pub struct Payload {
    pub seq: i32,
    pub timestamp: i64,
    pub data: String,
    pub previous_hash: String,
}

/// The seal found by mining: the hash of the serialized payload, and the
/// nonce that makes the proof-of-work digest meet the target.
pub struct Headers {
    pub block_hash: String,
    pub nonce: i32,
}

/// One unit of the chain: a payload together with its seal.
pub struct Block {
    pub headers: Headers,
    pub payload: Payload,
}

/// The mathematical value of a payload.
pub struct PayloadView {
    pub seq: int,
    pub timestamp: int,
    pub data: Seq<char>,
    pub previous_hash: Seq<char>,
}

/// The mathematical value of a header.
pub struct HeadersView {
    pub block_hash: Seq<char>,
    pub nonce: int,
}

/// The mathematical value of a block.
pub struct BlockView {
    pub headers: HeadersView,
    pub payload: PayloadView,
}

impl View for Payload {
    type V = PayloadView;

    open spec fn view(&self) -> PayloadView {
        PayloadView {
            seq: self.seq as int,
            timestamp: self.timestamp as int,
            data: self.data@,
            previous_hash: self.previous_hash@,
        }
    }
}

impl View for Headers {
    type V = HeadersView;

    open spec fn view(&self) -> HeadersView {
        HeadersView { block_hash: self.block_hash@, nonce: self.nonce as int }
    }
}

impl View for Block {
    type V = BlockView;

    open spec fn view(&self) -> BlockView {
        BlockView { headers: self.headers@, payload: self.payload@ }
    }
}

impl Clone for Payload {
    fn clone(&self) -> (r: Self)
        ensures
            r@ == self@,
    {
        Payload {
            seq: self.seq,
            timestamp: self.timestamp,
            data: self.data.clone(),
            previous_hash: self.previous_hash.clone(),
        }
    }
}

impl Clone for Headers {
    fn clone(&self) -> (r: Self)
        ensures
            r@ == self@,
    {
        Headers { block_hash: self.block_hash.clone(), nonce: self.nonce }
    }
}

impl Clone for Block {
    fn clone(&self) -> (r: Self)
        ensures
            r@ == self@,
    {
        Block { headers: self.headers.clone(), payload: self.payload.clone() }
    }
}

/// The canonical serialization of a payload: a JSON object whose keys come
/// in the fixed order `seq`, `timestamp`, `data`, `previous_hash`. This is
/// the sole input of block hashing; header fields never appear in it. It is
/// a wire format: its exact shape must never change, or every recorded
/// block hash would stop verifying.
pub open spec fn payload_json(p: PayloadView) -> Seq<char> {
    "{\"seq\":"@ + decimal(p.seq) + ",\"timestamp\":"@ + decimal(p.timestamp)
        + ",\"data\":\""@ + json_escaped(p.data) + "\",\"previous_hash\":\""@
        + json_escaped(p.previous_hash) + "\"}"@
}

/// Produces the canonical serialization of `payload`, byte for byte as
/// `payload_json` defines it.
pub fn serialize_payload(payload: &Payload) -> (r: String)
    ensures
        r@ == payload_json(payload@),
{
    let mut s = String::from_str("{\"seq\":");
    let seq_digits = i64_to_string(payload.seq as i64);
    s.append(seq_digits.as_str());
    s.append(",\"timestamp\":");
    let ts_digits = i64_to_string(payload.timestamp);
    s.append(ts_digits.as_str());
    s.append(",\"data\":\"");
    push_json_escaped(payload.data.as_str(), &mut s);
    s.append("\",\"previous_hash\":\"");
    push_json_escaped(payload.previous_hash.as_str(), &mut s);
    s.append("\"}");
    assert(s@ =~= payload_json(payload@));
    s
}

} // verus!
