//! Unencrypted MTProto requests: how a message is framed, and the HTTP
//! request that carries it.
use vstd::prelude::*;
use vstd::string::*;
use crate::error::Error;
use crate::ser::{le_bytes, lemma_le_bytes_len, Serialize};

verus! {

/// The current time as seconds and nanoseconds since the Unix epoch.
/// Trusted: wraps `time::get_time`, whose `Timespec::new` asserts that the
/// nanoseconds lie in `0..1_000_000_000`; the value itself depends on the clock.
#[verifier::external_body]
fn clock_now() -> (r: (i64, i32))
    ensures
        0 <= r.1 < 1_000_000_000,
{
    let now = time::get_time();
    (now.sec, now.nsec)
}

/// The message id for the time `sec` seconds and `nsec` nanoseconds after the
/// epoch: the seconds in the high 32 bits, the nanoseconds rounded down to a
/// multiple of four in the low 32 bits, so that the id of a client message is
/// divisible by four.
pub open spec fn message_id_at(sec: i64, nsec: i32) -> u64 {
    ((sec as u64) << 32u64) | ((nsec & -4i32) as u64)
}

/// Computes [`message_id_at`].
pub fn message_id_from_time(sec: i64, nsec: i32) -> (r: u64)
    ensures
        r == message_id_at(sec, nsec),
        r % 4 == 0,
        0 <= nsec ==> r as nat == ((sec as u64) as nat % 0x1_0000_0000) * 0x1_0000_0000 + (
        nsec as nat / 4) * 4,
{
    let r = ((sec as u64) << 32u64) | ((nsec & -4i32) as u64);
    let s = sec as u64;
    let ns = nsec;
    assert((((s << 32u64) | ((ns & -4i32) as u64)) as u64) % 4 == 0) by (bit_vector);
    assert(0 <= ns ==> ((s << 32u64) | ((ns & -4i32) as u64)) == (s % 0x1_0000_0000) * 0x1_0000_0000
        + ((ns as u64) / 4) * 4) by (bit_vector);
    r
}

/// An unencrypted request: a message id and a message body.
#[derive(Debug)]
pub struct Request<T: Serialize> {
    message_id: u64,
    message_body: T,
}

/// The frame of an unencrypted message: a zero auth key id, the message id,
/// the length of the body (modulo 2^32), each little-endian, then the body.
pub open spec fn frame(message_id: u64, body: Seq<u8>) -> Seq<u8> {
    le_bytes(0, 8) + le_bytes(message_id as nat, 8) + le_bytes((body.len() as u32) as nat, 4) + body
}

/// The address that requests are sent to.
pub open spec fn api_address() -> Seq<char> {
    "http://149.154.167.50:443/api"@
}

/// The method of an HTTP request.
#[derive(Debug, Clone, Copy, PartialEq, Eq, Structural)]
pub enum HttpMethod {
    Post,
}

/// An HTTP request as plain values.
#[derive(Debug)]
pub struct HttpRequest {
    pub method: HttpMethod,
    pub uri: String,
    pub keep_alive: bool,
    pub content_length: u64,
    pub body: Vec<u8>,
}

impl<T: Serialize> Request<T> {
    /// The message id.
    pub closed spec fn id(&self) -> u64 {
        self.message_id
    }

    /// The message body.
    pub closed spec fn body(&self) -> T {
        self.message_body
    }

    /// A request that carries `body`, with an id taken from the clock.
    pub fn new(body: T) -> (r: Self)
        ensures
            r.body() == body,
            r.id() % 4 == 0,
            exists|sec: i64, nsec: i32| 0 <= nsec < 1_000_000_000 && r.id() == message_id_at(sec, nsec),
    {
        let (sec, nsec) = clock_now();
        let message_id = message_id_from_time(sec, nsec);
        Request { message_id, message_body: body }
    }

    /// The message id.
    pub fn message_id(&self) -> (r: u64)
        ensures
            r == self.id(),
    {
        self.message_id
    }

    /// The message body.
    pub fn message_body(&self) -> (r: &T)
        ensures
            *r == self.body(),
    {
        &self.message_body
    }

    /// The bytes of this request: the frame of its body.
    pub fn to_vec(&self) -> (r: Result<Vec<u8>, Error>)
        ensures
            r is Ok <==> self.body().encodable(),
            r is Err ==> r == Err::<Vec<u8>, Error>(Error::TooLong),
            r matches Ok(v) ==> v@ == frame(self.id(), self.body().tl_bytes()),
    {
        let mut result: Vec<u8> = Vec::new();
        let zero: u64 = 0;
        match zero.serialize_to(&mut result) {
            Ok(()) => {},
            Err(e) => {
                return Err(e);
            },
        }
        match self.message_id.serialize_to(&mut result) {
            Ok(()) => {},
            Err(e) => {
                return Err(e);
            },
        }
        let mut message: Vec<u8> = Vec::new();
        match self.message_body.serialize_to(&mut message) {
            Ok(()) => {},
            Err(e) => {
                return Err(e);
            },
        }
        let length = message.len() as u32;
        match length.serialize_to(&mut result) {
            Ok(()) => {},
            Err(e) => {
                return Err(e);
            },
        }
        result.append(&mut message);
        assert(result@ =~= frame(self.id(), self.body().tl_bytes()));
        Ok(result)
    }

    /// The HTTP request that sends this request: a keep-alive POST of its
    /// bytes to the API address.
    pub fn to_http_request(&self) -> (r: Result<HttpRequest, Error>)
        ensures
            r is Ok <==> self.body().encodable(),
            r is Err ==> r == Err::<HttpRequest, Error>(Error::TooLong),
            r matches Ok(h) ==> {
                &&& h.method == HttpMethod::Post
                &&& h.uri@ == api_address()
                &&& h.keep_alive
                &&& h.body@ == frame(self.id(), self.body().tl_bytes())
                &&& h.content_length == h.body@.len()
            },
    {
        let buffer = match self.to_vec() {
            Ok(b) => b,
            Err(e) => {
                return Err(e);
            },
        };
        let content_length = buffer.len() as u64;
        Ok(
            HttpRequest {
                method: HttpMethod::Post,
                uri: String::from_str("http://149.154.167.50:443/api"),
                keep_alive: true,
                content_length,
                body: buffer,
            },
        )
    }
}


/// The frame of a body is read back by position: 8 zero bytes of auth key
/// id, the message id at bytes 8 to 16, the body length at bytes 16 to 20
/// (exact when it is below 2^32), and the body itself after that, unchanged.
/// A word-aligned body gives a word-aligned frame.
pub proof fn law_frame_layout(message_id: u64, body: Seq<u8>)
    ensures
        frame(message_id, body).len() == body.len() + 20,
        frame(message_id, body).subrange(0, 8) == le_bytes(0, 8),
        frame(message_id, body).subrange(8, 16) == le_bytes(message_id as nat, 8),
        body.len() < 0x1_0000_0000 ==> frame(message_id, body).subrange(16, 20) == le_bytes(
            body.len(),
            4,
        ),
        frame(message_id, body).subrange(20, body.len() + 20int) == body,
        body.len() % 4 == 0 ==> frame(message_id, body).len() % 4 == 0,
{
    lemma_le_bytes_len(0, 8);
    lemma_le_bytes_len(message_id as nat, 8);
    lemma_le_bytes_len((body.len() as u32) as nat, 4);
    let f = frame(message_id, body);
    assert(f.subrange(0, 8) =~= le_bytes(0, 8));
    assert(f.subrange(8, 16) =~= le_bytes(message_id as nat, 8));
    assert(f.subrange(16, 20) =~= le_bytes((body.len() as u32) as nat, 4));
    assert(f.subrange(20, body.len() + 20int) =~= body);
}


proof fn lemma_message_id_value(sec: i64, nsec: i32)
    requires
        0 <= nsec,
    ensures
        message_id_at(sec, nsec) as nat == ((sec as u64) as nat % 0x1_0000_0000) * 0x1_0000_0000 + (
        nsec as nat / 4) * 4,
{
    let s = sec as u64;
    let ns = nsec;
    assert(0 <= ns ==> ((s << 32u64) | ((ns & -4i32) as u64)) == (s % 0x1_0000_0000) * 0x1_0000_0000
        + ((ns as u64) / 4) * 4) by (bit_vector);
}

/// A message id holds the seconds of its time in its high 32 bits and the
/// nanoseconds, rounded down to a multiple of four, in its low 32 bits.
pub proof fn law_message_id_parts(sec: i64, nsec: i32)
    requires
        0 <= sec < 0x1_0000_0000,
        0 <= nsec < 1_000_000_000,
    ensures
        message_id_at(sec, nsec) / 0x1_0000_0000 == sec,
        message_id_at(sec, nsec) % 0x1_0000_0000 == nsec - nsec % 4,
{
    lemma_message_id_value(sec, nsec);
}

/// Of two times (the nanoseconds taken to a multiple of four), the later one
/// gives the larger message id.
pub proof fn law_message_ids_follow_time(s1: i64, n1: i32, s2: i64, n2: i32)
    requires
        0 <= s1 < 0x1_0000_0000,
        0 <= s2 < 0x1_0000_0000,
        0 <= n1 < 1_000_000_000,
        0 <= n2 < 1_000_000_000,
        s1 < s2 || (s1 == s2 && n1 / 4 < n2 / 4),
    ensures
        message_id_at(s1, n1) < message_id_at(s2, n2),
{
    lemma_message_id_value(s1, n1);
    lemma_message_id_value(s2, n2);
}

} // verus!
