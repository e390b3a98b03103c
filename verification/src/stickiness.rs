//! Signed, turn-scoped session tokens.  A token is URL-safe base64 over
//! `payload || HMAC-SHA256(secret, payload)`, where the payload is a
//! canonical, length-prefixed serialization of the claims.  The codec is
//! verified to round-trip; signing and encoding rely on the `hmac`, `sha2`,
//! `base64` and `uuid` crates through the trusted items below.

use base64::Engine as _;
use hmac::Mac;
use vstd::prelude::*;

verus! {

use vstd::bytes::{lemma_auto_spec_u64_to_from_le_bytes, spec_u64_to_le_bytes, u64_from_le_bytes, u64_to_le_bytes};
use vstd::slice::{slice_subrange, slice_to_vec};
use vstd::string::StrSliceExecFns;
use vstd::string::StringExecFns;
use vstd::utf8::{encode_utf8, encode_utf8_decode_utf8, encode_utf8_valid_utf8, valid_utf8};
use crate::errors::{code_of, ErrorCode, RouterError};

/// The URL-safe unpadded base64 rendering of a byte string; a function of the
/// bytes alone, and injective: distinct byte strings render distinctly.
pub uninterp spec fn b64_of(data: Seq<u8>) -> Seq<char>;

/// Relies on base64's `URL_SAFE_NO_PAD` engine: `encode` renders the bytes.
#[verifier::external_body]
fn b64_encode(data: &[u8]) -> (r: String)
    ensures
        r@ == b64_of(data@),
{
    base64::engine::general_purpose::URL_SAFE_NO_PAD.encode(data)
}

/// Relies on base64's `URL_SAFE_NO_PAD` engine: `decode` inverts `encode`,
/// succeeds exactly on its image (the engine rejects padding and non-canonical
/// trailing bits), and encoding is injective, so the preimage is unique.
#[verifier::external_body]
fn b64_decode(token: &str) -> (r: Option<Vec<u8>>)
    ensures
        r matches Some(b) ==> token@ == b64_of(b@),
        r matches Some(b) ==> forall|x: Seq<u8>| b64_of(x) == token@ ==> x == b@,
        (exists|x: Seq<u8>| b64_of(x) == token@) ==> r is Some,
{
    base64::engine::general_purpose::URL_SAFE_NO_PAD.decode(token.as_bytes()).ok()
}

/// The HMAC-SHA256 tag for a key and message; a function of both alone.
pub uninterp spec fn hmac_sha256_of(key: Seq<u8>, data: Seq<u8>) -> Seq<u8>;

/// Relies on hmac's `Hmac<Sha256>`: a 32-byte tag computed from key and
/// message alone.  `new_from_slice` accepts any key length.
#[verifier::external_body]
fn hmac_sign(key: &[u8], data: &[u8]) -> (r: Vec<u8>)
    ensures
        r@ == hmac_sha256_of(key@, data@),
        r@.len() == 32,
{
    match hmac::Hmac::<sha2::Sha256>::new_from_slice(key) {
        Ok(mut mac) => {
            mac.update(data);
            mac.finalize().into_bytes().to_vec()
        },
        Err(_) => Vec::new(),
    }
}

/// Relies on hmac's `verify_slice`: accepts exactly when the candidate equals
/// the tag for this key and message, compared in constant time.
#[verifier::external_body]
fn hmac_verify(key: &[u8], data: &[u8], sig: &[u8]) -> (r: bool)
    ensures
        r == (sig@ == hmac_sha256_of(key@, data@)),
{
    match hmac::Hmac::<sha2::Sha256>::new_from_slice(key) {
        Ok(mut mac) => {
            mac.update(data);
            mac.verify_slice(sig).is_ok()
        },
        Err(_) => false,
    }
}

/// Relies on uuid's `Uuid::new_v4`: a fresh random identifier; nothing is
/// promised of its value.
#[verifier::external_body]
pub(crate) fn fresh_token_id() -> (r: String) {
    uuid::Uuid::new_v4().to_string()
}

/// The RFC 3339 rendering of a UTC timestamp in milliseconds; a function of
/// the timestamp alone.
pub uninterp spec fn rfc3339_of(ms: u64) -> Seq<char>;

/// Relies on chrono's `DateTime::to_rfc3339` over a UTC timestamp built with
/// `from_timestamp_millis`; timestamps out of chrono's range render empty.
#[verifier::external_body]
pub(crate) fn rfc3339_string(ms: u64) -> (r: String)
    ensures
        r@ == rfc3339_of(ms),
{
    match chrono::DateTime::<chrono::Utc>::from_timestamp_millis(ms as i64) {
        Some(dt) => dt.to_rfc3339(),
        None => String::new(),
    }
}

/// Relies on std's `String::from_utf8`: succeeds exactly on valid UTF-8 and
/// returns the string those bytes encode.
#[verifier::external_body]
fn string_from_utf8(bytes: Vec<u8>) -> (r: Option<String>)
    ensures
        r matches Some(s) ==> encode_utf8(s@) == bytes@,
        valid_utf8(bytes@) ==> r is Some,
{
    String::from_utf8(bytes).ok()
}

/// The claims a stickiness token carries.
#[derive(Clone, Debug)]
pub struct StickinessClaims {
    pub token_id: String,
    pub tenant: Option<String>,
    pub project: Option<String>,
    pub alias: String,
    pub model_id: String,
    pub expires_at_ms: u64,
    pub max_turns: u8,
    pub turn: u8,
}

/// The mathematical content of a set of claims.
pub struct ClaimsView {
    pub token_id: Seq<char>,
    pub tenant: Option<Seq<char>>,
    pub project: Option<Seq<char>>,
    pub alias: Seq<char>,
    pub model_id: Seq<char>,
    pub expires_at_ms: u64,
    pub max_turns: u8,
    pub turn: u8,
}

pub open spec fn opt_view(o: Option<String>) -> Option<Seq<char>> {
    match o {
        Some(s) => Some(s@),
        None => None,
    }
}

impl View for StickinessClaims {
    type V = ClaimsView;

    open spec fn view(&self) -> ClaimsView {
        ClaimsView {
            token_id: self.token_id@,
            tenant: opt_view(self.tenant),
            project: opt_view(self.project),
            alias: self.alias@,
            model_id: self.model_id@,
            expires_at_ms: self.expires_at_ms,
            max_turns: self.max_turns,
            turn: self.turn,
        }
    }
}

/// A byte string whose length fits the 64-bit frame.
pub open spec fn framable(b: Seq<u8>) -> bool {
    b.len() < 0x10000000000000000
}

/// A byte string framed by its 64-bit little-endian length.
pub open spec fn enc_bytes(b: Seq<u8>) -> Seq<u8> {
    spec_u64_to_le_bytes(b.len() as u64) + b
}

/// A string framed as its UTF-8 bytes.
pub open spec fn enc_str(s: Seq<char>) -> Seq<u8> {
    enc_bytes(encode_utf8(s))
}

/// An optional string: a tag byte, then the string if present.
pub open spec fn enc_opt(o: Option<Seq<char>>) -> Seq<u8> {
    match o {
        None => seq![0u8],
        Some(s) => seq![1u8] + enc_str(s),
    }
}

pub open spec fn framable_opt(o: Option<Seq<char>>) -> bool {
    match o {
        None => true,
        Some(s) => framable(encode_utf8(s)),
    }
}

/// The canonical payload of a set of claims: every field in a fixed order.
pub open spec fn encode_claims_spec(c: ClaimsView) -> Seq<u8> {
    enc_str(c.token_id) + enc_opt(c.tenant) + enc_opt(c.project) + enc_str(c.alias) + enc_str(
        c.model_id,
    ) + spec_u64_to_le_bytes(c.expires_at_ms) + seq![c.max_turns] + seq![c.turn]
}

/// Every string of the claims fits its length frame; true of any claims an
/// executable ever holds.
pub open spec fn wf_claims(c: ClaimsView) -> bool {
    &&& framable(encode_utf8(c.token_id))
    &&& framable_opt(c.tenant)
    &&& framable_opt(c.project)
    &&& framable(encode_utf8(c.alias))
    &&& framable(encode_utf8(c.model_id))
}

/// Saturating addition, for expiry instants.
pub open spec fn sat_add64(a: u64, b: u64) -> u64 {
    if a + b > u64::MAX {
        u64::MAX
    } else {
        (a + b) as u64
    }
}

/// Splitting equal concatenations at equal lengths splits the parts.
proof fn lemma_concat_split(a: Seq<u8>, b: Seq<u8>, c: Seq<u8>, d: Seq<u8>)
    requires
        a + b == c + d,
        a.len() == c.len(),
    ensures
        a == c,
        b == d,
{
    assert forall|i: int| 0 <= i < a.len() implies a[i] == c[i] by {
        assert((a + b)[i] == a[i]);
        assert((c + d)[i] == c[i]);
    }
    assert(a =~= c);
    assert((a + b).len() == a.len() + b.len());
    assert((c + d).len() == c.len() + d.len());
    assert((a + b).len() == (c + d).len());
    assert(b.len() == d.len());
    assert forall|i: int| 0 <= i < b.len() implies b[i] == d[i] by {
        assert(i < d.len());
        assert((a + b)[a.len() + i] == b[i]);
        assert((a + b)[a.len() + i] == (c + d)[c.len() + i]);
        assert((c + d)[c.len() + i] == d[i]);
    }
    assert(b =~= d);
}

fn append_bytes(out: &mut Vec<u8>, b: &[u8])
    ensures
        final (out)@ == old(out)@ + b@,
{
    let mut i: usize = 0;
    while i < b.len()
        invariant
            i <= b@.len(),
            out@ == old(out)@ + b@.subrange(0, i as int),
        decreases b@.len() - i,
    {
        proof {
            assert(old(out)@ + b@.subrange(0, i + 1) =~= (old(out)@ + b@.subrange(0, i as int)).push(
                b@[i as int],
            ));
        }
        out.push(b[i]);
        i = i + 1;
    }
    proof {
        assert(b@.subrange(0, b@.len() as int) =~= b@);
    }
}

fn append_str(out: &mut Vec<u8>, s: &str)
    ensures
        final (out)@ == old(out)@ + enc_str(s@),
        framable(encode_utf8(s@)),
{
    let bytes = s.as_bytes_vec();
    let total = bytes.len();
    proof {
        assert(encode_utf8(s@).len() == total);
    }
    let len_prefix = u64_to_le_bytes(total as u64);
    append_bytes(out, len_prefix.as_slice());
    append_bytes(out, bytes.as_slice());
    proof {
        assert(final (out)@ =~= old(out)@ + enc_str(s@));
    }
}

fn append_opt(out: &mut Vec<u8>, o: &Option<String>)
    ensures
        final (out)@ == old(out)@ + enc_opt(opt_view(*o)),
        framable_opt(opt_view(*o)),
{
    match o {
        None => {
            out.push(0u8);
            proof {
                assert(final (out)@ =~= old(out)@ + enc_opt(None));
            }
        },
        Some(s) => {
            out.push(1u8);
            append_str(out, s.as_str());
            proof {
                assert(final (out)@ =~= old(out)@ + enc_opt(Some(s@)));
            }
        },
    }
}

/// Serialize claims into their canonical payload.
fn encode_claims(c: &StickinessClaims) -> (r: Vec<u8>)
    ensures
        r@ == encode_claims_spec(c@),
        wf_claims(c@),
{
    let mut out: Vec<u8> = Vec::new();
    append_str(&mut out, c.token_id.as_str());
    append_opt(&mut out, &c.tenant);
    append_opt(&mut out, &c.project);
    append_str(&mut out, c.alias.as_str());
    append_str(&mut out, c.model_id.as_str());
    let expiry = u64_to_le_bytes(c.expires_at_ms);
    append_bytes(&mut out, expiry.as_slice());
    out.push(c.max_turns);
    out.push(c.turn);
    proof {
        assert(out@ =~= encode_claims_spec(c@));
    }
    out
}

fn read_u64s<'a>(data: &'a [u8]) -> (r: Option<(u64, &'a [u8])>)
    ensures
        r matches Some((x, rest)) ==> data@ == spec_u64_to_le_bytes(x) + rest@,
        data@.len() >= 8 ==> r is Some,
{
    proof {
        lemma_auto_spec_u64_to_from_le_bytes();
    }
    if data.len() < 8 {
        return None;
    }
    let head = slice_subrange(data, 0, 8);
    let rest = slice_subrange(data, 8, data.len());
    let x = u64_from_le_bytes(head);
    proof {
        assert(spec_u64_to_le_bytes(x) == head@);
        assert(data@ =~= head@ + rest@);
    }
    Some((x, rest))
}

fn read_u8s<'a>(data: &'a [u8]) -> (r: Option<(u8, &'a [u8])>)
    ensures
        r matches Some((x, rest)) ==> data@ == seq![x] + rest@,
        data@.len() >= 1 ==> r is Some,
{
    if data.len() < 1 {
        return None;
    }
    let head = slice_subrange(data, 0, 1);
    let rest = slice_subrange(data, 1, data.len());
    let x = head[0];
    proof {
        assert(data@ =~= seq![x] + rest@);
    }
    Some((x, rest))
}

fn read_chunk<'a>(data: &'a [u8]) -> (r: Option<(&'a [u8], &'a [u8])>)
    ensures
        r matches Some((b, rest)) ==> data@ == enc_bytes(b@) + rest@,
        forall|bv: Seq<u8>, rv: Seq<u8>|
            (data@ == enc_bytes(bv) + rv && framable(bv)) ==> (r matches Some((b, rest)) && b@ == bv
                && rest@ == rv),
{
    proof {
        lemma_auto_spec_u64_to_from_le_bytes();
    }
    let parsed = read_u64s(data);
    let (len, tail) = match parsed {
        Some(p) => p,
        None => {
            proof {
                assert forall|bv: Seq<u8>, rv: Seq<u8>|
                    !(data@ == enc_bytes(bv) + rv && framable(bv)) by {
                    if data@ == enc_bytes(bv) + rv {
                        assert(spec_u64_to_le_bytes(bv.len() as u64).len() == 8);
                        assert(data@.len() >= 8);
                    }
                }
            }
            return None;
        },
    };
    if (tail.len() as u64) < len {
        proof {
            assert forall|bv: Seq<u8>, rv: Seq<u8>|
                !(data@ == enc_bytes(bv) + rv && framable(bv)) by {
                if data@ == enc_bytes(bv) + rv && framable(bv) {
                    assert(enc_bytes(bv) + rv =~= spec_u64_to_le_bytes(bv.len() as u64) + (bv + rv));
                    lemma_concat_split(
                        spec_u64_to_le_bytes(len),
                        tail@,
                        spec_u64_to_le_bytes(bv.len() as u64),
                        bv + rv,
                    );
                    assert(len == bv.len() as u64);
                    assert(tail@.len() >= bv.len());
                }
            }
        }
        return None;
    }
    let n = len as usize;
    let b = slice_subrange(tail, 0, n);
    let rest = slice_subrange(tail, n, tail.len());
    proof {
        assert(tail@ =~= b@ + rest@);
        assert(b@.len() as u64 == len);
        assert(enc_bytes(b@) + rest@ =~= spec_u64_to_le_bytes(b@.len() as u64) + (b@ + rest@));
        assert(data@ == enc_bytes(b@) + rest@);
        assert forall|bv: Seq<u8>, rv: Seq<u8>| (data@ == enc_bytes(bv) + rv && framable(
            bv,
        )) implies (b@ == bv && rest@ == rv) by {
            assert(enc_bytes(bv) + rv =~= spec_u64_to_le_bytes(bv.len() as u64) + (bv + rv));
            lemma_concat_split(
                spec_u64_to_le_bytes(len),
                tail@,
                spec_u64_to_le_bytes(bv.len() as u64),
                bv + rv,
            );
            assert(len == bv.len() as u64);
            assert(bv.len() == n);
            lemma_concat_split(b@, rest@, bv, rv);
        }
    }
    Some((b, rest))
}

fn read_string<'a>(data: &'a [u8]) -> (r: Option<(String, &'a [u8])>)
    ensures
        r matches Some((s, rest)) ==> data@ == enc_str(s@) + rest@ && framable(encode_utf8(s@)),
        forall|sv: Seq<char>, rv: Seq<u8>|
            (data@ == enc_str(sv) + rv && framable(encode_utf8(sv))) ==> (r matches Some((s, rest))
                && s@ == sv && rest@ == rv),
{
    let chunk = read_chunk(data);
    let (b, rest) = match chunk {
        Some(p) => p,
        None => {
            proof {
                assert forall|sv: Seq<char>, rv: Seq<u8>|
                    !(data@ == enc_str(sv) + rv && framable(encode_utf8(sv))) by {
                    if data@ == enc_str(sv) + rv && framable(encode_utf8(sv)) {
                        assert(data@ == enc_bytes(encode_utf8(sv)) + rv);
                    }
                }
            }
            return None;
        },
    };
    let blen = b.len();
    let bytes = slice_to_vec(b);
    let parsed = string_from_utf8(bytes);
    match parsed {
        Some(s) => {
            proof {
                assert(encode_utf8(s@).len() == blen);
                assert(data@ == enc_str(s@) + rest@);
                assert forall|sv: Seq<char>, rv: Seq<u8>| (data@ == enc_str(sv) + rv && framable(
                    encode_utf8(sv),
                )) implies (s@ == sv && rest@ == rv) by {
                    assert(data@ == enc_bytes(encode_utf8(sv)) + rv);
                    assert(b@ == encode_utf8(sv) && rest@ == rv);
                    encode_utf8_decode_utf8(sv);
                    encode_utf8_decode_utf8(s@);
                }
            }
            Some((s, rest))
        },
        None => {
            proof {
                assert forall|sv: Seq<char>, rv: Seq<u8>|
                    !(data@ == enc_str(sv) + rv && framable(encode_utf8(sv))) by {
                    if data@ == enc_str(sv) + rv && framable(encode_utf8(sv)) {
                        assert(data@ == enc_bytes(encode_utf8(sv)) + rv);
                        assert(b@ == encode_utf8(sv));
                        encode_utf8_valid_utf8(sv);
                    }
                }
            }
            None
        },
    }
}

fn read_opt_string<'a>(data: &'a [u8]) -> (r: Option<(Option<String>, &'a [u8])>)
    ensures
        r matches Some((o, rest)) ==> data@ == enc_opt(opt_view(o)) + rest@ && framable_opt(
            opt_view(o),
        ),
        forall|ov: Option<Seq<char>>, rv: Seq<u8>|
            (data@ == enc_opt(ov) + rv && framable_opt(ov)) ==> (r matches Some((o, rest))
                && opt_view(o) == ov && rest@ == rv),
{
    let tagged = read_u8s(data);
    let (tag, tail) = match tagged {
        Some(p) => p,
        None => {
            proof {
                assert forall|ov: Option<Seq<char>>, rv: Seq<u8>|
                    !(data@ == enc_opt(ov) + rv && framable_opt(ov)) by {
                    if data@ == enc_opt(ov) + rv {
                        match ov {
                            Some(sv) => {
                                assert(data@.len() >= 1);
                            },
                            None => {
                                assert(data@.len() >= 1);
                            },
                        }
                    }
                }
            }
            return None;
        },
    };
    if tag == 0 {
        proof {
            assert(data@ == enc_opt(None) + tail@);
            assert forall|ov: Option<Seq<char>>, rv: Seq<u8>| (data@ == enc_opt(ov) + rv
                && framable_opt(ov)) implies (ov is None && tail@ == rv) by {
                match ov {
                    Some(sv) => {
                        assert(data@ == (seq![1u8] + enc_str(sv)) + rv);
                        assert((seq![1u8] + enc_str(sv)) + rv =~= seq![1u8] + (enc_str(sv) + rv));
                        lemma_concat_split(seq![tag], tail@, seq![1u8], enc_str(sv) + rv);
                        assert(seq![tag][0] == seq![1u8][0]);
                    },
                    None => {
                        lemma_concat_split(seq![tag], tail@, seq![0u8], rv);
                    },
                }
            }
        }
        Some((None, tail))
    } else if tag == 1 {
        let inner = read_string(tail);
        match inner {
            Some((s, rest)) => {
                proof {
                    assert((seq![1u8] + enc_str(s@)) + rest@ =~= seq![1u8] + (enc_str(s@) + rest@));
                    assert(data@ == enc_opt(Some(s@)) + rest@);
                    assert forall|ov: Option<Seq<char>>, rv: Seq<u8>| (data@ == enc_opt(ov) + rv
                        && framable_opt(ov)) implies (opt_view(Some(s)) == ov && rest@ == rv) by {
                        match ov {
                            Some(sv) => {
                                assert(data@ == (seq![1u8] + enc_str(sv)) + rv);
                                assert((seq![1u8] + enc_str(sv)) + rv =~= seq![1u8] + (enc_str(sv)
                                    + rv));
                                lemma_concat_split(seq![tag], tail@, seq![1u8], enc_str(sv) + rv);
                            },
                            None => {
                                lemma_concat_split(seq![tag], tail@, seq![0u8], rv);
                                assert(seq![tag][0] == seq![0u8][0]);
                            },
                        }
                    }
                }
                Some((Some(s), rest))
            },
            None => {
                proof {
                    assert forall|ov: Option<Seq<char>>, rv: Seq<u8>|
                        !(data@ == enc_opt(ov) + rv && framable_opt(ov)) by {
                        if data@ == enc_opt(ov) + rv && framable_opt(ov) {
                            match ov {
                                Some(sv) => {
                                    assert(data@ == (seq![1u8] + enc_str(sv)) + rv);
                                    assert((seq![1u8] + enc_str(sv)) + rv =~= seq![1u8] + (enc_str(
                                        sv,
                                    ) + rv));
                                    lemma_concat_split(
                                        seq![tag],
                                        tail@,
                                        seq![1u8],
                                        enc_str(sv) + rv,
                                    );
                                },
                                None => {
                                    lemma_concat_split(seq![tag], tail@, seq![0u8], rv);
                                    assert(seq![tag][0] == seq![0u8][0]);
                                },
                            }
                        }
                    }
                }
                None
            },
        }
    } else {
        proof {
            assert forall|ov: Option<Seq<char>>, rv: Seq<u8>|
                !(data@ == enc_opt(ov) + rv && framable_opt(ov)) by {
                if data@ == enc_opt(ov) + rv {
                    match ov {
                        Some(sv) => {
                            assert(data@ == (seq![1u8] + enc_str(sv)) + rv);
                            assert((seq![1u8] + enc_str(sv)) + rv =~= seq![1u8] + (enc_str(sv)
                                + rv));
                            lemma_concat_split(seq![tag], tail@, seq![1u8], enc_str(sv) + rv);
                            assert(seq![tag][0] == seq![1u8][0]);
                        },
                        None => {
                            lemma_concat_split(seq![tag], tail@, seq![0u8], rv);
                            assert(seq![tag][0] == seq![0u8][0]);
                        },
                    }
                }
            }
        }
        None
    }
}

/// The payload of a set of claims, re-associated so each frame stands at the
/// front of what follows it.
pub open spec fn claims_frames(c: ClaimsView) -> Seq<u8> {
    enc_str(c.token_id) + (enc_opt(c.tenant) + (enc_opt(c.project) + (enc_str(c.alias) + (enc_str(
        c.model_id,
    ) + (spec_u64_to_le_bytes(c.expires_at_ms) + (seq![c.max_turns] + seq![c.turn]))))))
}

proof fn lemma_claims_assoc(c: ClaimsView)
    ensures
        encode_claims_spec(c) == claims_frames(c),
{
    assert(encode_claims_spec(c) =~= claims_frames(c));
}

/// Parse a canonical payload back into claims.  Exactly the payloads the
/// encoder produces are accepted, and they parse to the claims that produced
/// them.
#[verifier::rlimit(60)]
fn decode_claims(data: &[u8]) -> (r: Option<StickinessClaims>)
    ensures
        r matches Some(c) ==> data@ == encode_claims_spec(c@) && wf_claims(c@),
        forall|cv: ClaimsView|
            (data@ == encode_claims_spec(cv) && wf_claims(cv)) ==> (r matches Some(c) && c@ == cv),
{
    proof {
        lemma_auto_spec_u64_to_from_le_bytes();
    }
    let ghost orig = data@;
    let step1 = read_string(data);
    let (token_id, d1) = match step1 {
        Some(p) => p,
        None => {
            proof {
                assert forall|cv: ClaimsView|
                    !(orig == encode_claims_spec(cv) && wf_claims(cv)) by {
                    if orig == encode_claims_spec(cv) && wf_claims(cv) {
                        lemma_claims_assoc(cv);
                    }
                }
            }
            return None;
        },
    };
    let step2 = read_opt_string(d1);
    let (tenant, d2) = match step2 {
        Some(p) => p,
        None => {
            proof {
                assert forall|cv: ClaimsView|
                    !(orig == encode_claims_spec(cv) && wf_claims(cv)) by {
                    if orig == encode_claims_spec(cv) && wf_claims(cv) {
                        lemma_claims_assoc(cv);
                    }
                }
            }
            return None;
        },
    };
    let step3 = read_opt_string(d2);
    let (project, d3) = match step3 {
        Some(p) => p,
        None => {
            proof {
                assert forall|cv: ClaimsView|
                    !(orig == encode_claims_spec(cv) && wf_claims(cv)) by {
                    if orig == encode_claims_spec(cv) && wf_claims(cv) {
                        lemma_claims_assoc(cv);
                    }
                }
            }
            return None;
        },
    };
    let step4 = read_string(d3);
    let (alias, d4) = match step4 {
        Some(p) => p,
        None => {
            proof {
                assert forall|cv: ClaimsView|
                    !(orig == encode_claims_spec(cv) && wf_claims(cv)) by {
                    if orig == encode_claims_spec(cv) && wf_claims(cv) {
                        lemma_claims_assoc(cv);
                    }
                }
            }
            return None;
        },
    };
    let step5 = read_string(d4);
    let (model_id, d5) = match step5 {
        Some(p) => p,
        None => {
            proof {
                assert forall|cv: ClaimsView|
                    !(orig == encode_claims_spec(cv) && wf_claims(cv)) by {
                    if orig == encode_claims_spec(cv) && wf_claims(cv) {
                        lemma_claims_assoc(cv);
                    }
                }
            }
            return None;
        },
    };
    let step6 = read_u64s(d5);
    let (expires_at_ms, d6) = match step6 {
        Some(p) => p,
        None => {
            proof {
                assert forall|cv: ClaimsView|
                    !(orig == encode_claims_spec(cv) && wf_claims(cv)) by {
                    if orig == encode_claims_spec(cv) && wf_claims(cv) {
                        lemma_claims_assoc(cv);
                        assert(d5@ == spec_u64_to_le_bytes(cv.expires_at_ms) + (seq![cv.max_turns]
                            + seq![cv.turn]));
                        assert(d5@.len() >= 8);
                    }
                }
            }
            return None;
        },
    };
    let step7 = read_u8s(d6);
    let (max_turns, d7) = match step7 {
        Some(p) => p,
        None => {
            proof {
                assert forall|cv: ClaimsView|
                    !(orig == encode_claims_spec(cv) && wf_claims(cv)) by {
                    if orig == encode_claims_spec(cv) && wf_claims(cv) {
                        lemma_claims_assoc(cv);
                        lemma_concat_split(
                            spec_u64_to_le_bytes(expires_at_ms),
                            d6@,
                            spec_u64_to_le_bytes(cv.expires_at_ms),
                            seq![cv.max_turns] + seq![cv.turn],
                        );
                        assert(d6@.len() >= 1);
                    }
                }
            }
            return None;
        },
    };
    let step8 = read_u8s(d7);
    let (turn, d8) = match step8 {
        Some(p) => p,
        None => {
            proof {
                assert forall|cv: ClaimsView|
                    !(orig == encode_claims_spec(cv) && wf_claims(cv)) by {
                    if orig == encode_claims_spec(cv) && wf_claims(cv) {
                        lemma_claims_assoc(cv);
                        lemma_concat_split(
                            spec_u64_to_le_bytes(expires_at_ms),
                            d6@,
                            spec_u64_to_le_bytes(cv.expires_at_ms),
                            seq![cv.max_turns] + seq![cv.turn],
                        );
                        lemma_concat_split(seq![max_turns], d7@, seq![cv.max_turns], seq![cv.turn]);
                        assert(d7@.len() >= 1);
                    }
                }
            }
            return None;
        },
    };
    if d8.len() > 0 {
        proof {
            assert forall|cv: ClaimsView| !(orig == encode_claims_spec(cv) && wf_claims(cv)) by {
                if orig == encode_claims_spec(cv) && wf_claims(cv) {
                    lemma_claims_assoc(cv);
                    lemma_concat_split(
                        spec_u64_to_le_bytes(expires_at_ms),
                        d6@,
                        spec_u64_to_le_bytes(cv.expires_at_ms),
                        seq![cv.max_turns] + seq![cv.turn],
                    );
                    lemma_concat_split(seq![max_turns], d7@, seq![cv.max_turns], seq![cv.turn]);
                    lemma_concat_split(seq![turn], d8@, seq![cv.turn], Seq::<u8>::empty());
                    assert(seq![cv.turn] + Seq::<u8>::empty() =~= seq![cv.turn]);
                }
            }
        }
        return None;
    }
    let c = StickinessClaims {
        token_id,
        tenant,
        project,
        alias,
        model_id,
        expires_at_ms,
        max_turns,
        turn,
    };
    proof {
        assert(d8@ =~= Seq::<u8>::empty());
        assert(seq![turn] + d8@ =~= seq![turn]);
        assert(orig == claims_frames(c@));
        lemma_claims_assoc(c@);
        assert forall|cv: ClaimsView| (orig == encode_claims_spec(cv) && wf_claims(cv)) implies c@
            == cv by {
            lemma_claims_assoc(cv);
            lemma_concat_split(
                spec_u64_to_le_bytes(expires_at_ms),
                d6@,
                spec_u64_to_le_bytes(cv.expires_at_ms),
                seq![cv.max_turns] + seq![cv.turn],
            );
            lemma_auto_spec_u64_to_from_le_bytes();
            lemma_concat_split(seq![max_turns], d7@, seq![cv.max_turns], seq![cv.turn]);
            assert(seq![max_turns][0] == seq![cv.max_turns][0]);
            assert(seq![turn] =~= seq![turn] + d8@);
            assert(seq![turn][0] == seq![cv.turn][0]);
            assert(cv == ClaimsView {
                token_id: cv.token_id,
                tenant: cv.tenant,
                project: cv.project,
                alias: cv.alias,
                model_id: cv.model_id,
                expires_at_ms: cv.expires_at_ms,
                max_turns: cv.max_turns,
                turn: cv.turn,
            });
        }
    }
    Some(c)
}

/// The token that stands for a set of claims under a secret.
pub open spec fn signed_token_of(secret: Seq<u8>, cv: ClaimsView) -> Seq<char> {
    b64_of(encode_claims_spec(cv) + hmac_sha256_of(secret, encode_claims_spec(cv)))
}

/// The token is one this secret signs for some well-formed claims that have
/// not expired; exactly the tokens `verify` accepts.
pub open spec fn valid_session_token(secret: Seq<u8>, token: Seq<char>, now_ms: u64) -> bool {
    exists|cv: ClaimsView|
        token == signed_token_of(secret, cv) && wf_claims(cv) && hmac_sha256_of(
            secret,
            encode_claims_spec(cv),
        ).len() == 32 && cv.expires_at_ms >= now_ms
}

/// Issues and verifies stickiness tokens under one HMAC secret.
#[derive(Clone, Debug)]
pub struct StickinessManager {
    pub secret: Vec<u8>,
}

impl StickinessManager {
    pub fn new(secret: Vec<u8>) -> (r: Self)
        ensures
            r.secret@ == secret@,
    {
        StickinessManager { secret }
    }

    /// Sign claims into their token.
    fn sign_claims(&self, claims: &StickinessClaims) -> (r: String)
        ensures
            r@ == signed_token_of(self.secret@, claims@),
            hmac_sha256_of(self.secret@, encode_claims_spec(claims@)).len() == 32,
            wf_claims(claims@),
    {
        let payload = encode_claims(claims);
        let sig = hmac_sign(self.secret.as_slice(), payload.as_slice());
        let mut message = payload;
        append_bytes(&mut message, sig.as_slice());
        proof {
            assert(message@ == encode_claims_spec(claims@) + hmac_sha256_of(
                self.secret@,
                encode_claims_spec(claims@),
            ));
        }
        b64_encode(message.as_slice())
    }

    /// Issue a fresh token locking `alias` to `model_id` for up to
    /// `max_turns` turns, expiring `ttl_ms` after `now_ms`.  Issuing always
    /// succeeds.
    pub fn issue(
        &self,
        tenant: Option<&str>,
        project: Option<&str>,
        alias: &str,
        model_id: &str,
        max_turns: u8,
        ttl_ms: u64,
        now_ms: u64,
    ) -> (r: Result<(String, StickinessClaims), RouterError>)
        ensures
            r matches Ok((token, claims)) && claims.turn == 0 && claims.max_turns == max_turns
                && claims.expires_at_ms == sat_add64(now_ms, ttl_ms) && claims.alias@ == alias@
                && claims.model_id@ == model_id@ && opt_view(claims.tenant) == match tenant {
                Some(t) => Some(t@),
                None => None,
            } && opt_view(claims.project) == match project {
                Some(p) => Some(p@),
                None => None,
            } && token@ == signed_token_of(self.secret@, claims@) && hmac_sha256_of(
                self.secret@,
                encode_claims_spec(claims@),
            ).len() == 32 && wf_claims(claims@),
    {
        let expires_at_ms = if now_ms > u64::MAX - ttl_ms {
            u64::MAX
        } else {
            now_ms + ttl_ms
        };
        let claims = StickinessClaims {
            token_id: fresh_token_id(),
            tenant: match tenant {
                Some(t) => Some(t.to_owned()),
                None => None,
            },
            project: match project {
                Some(p) => Some(p.to_owned()),
                None => None,
            },
            alias: alias.to_owned(),
            model_id: model_id.to_owned(),
            expires_at_ms,
            max_turns,
            turn: 0,
        };
        let token = self.sign_claims(&claims);
        Ok((token, claims))
    }

    /// Advance a verified session by one turn: same lock, new identifier,
    /// renewed expiry, `turn` one higher (saturating).  Always succeeds.
    pub fn progress_turn(&self, claims: &StickinessClaims, ttl_ms: u64, now_ms: u64) -> (r: Result<
        (String, StickinessClaims),
        RouterError,
    >)
        ensures
            r matches Ok((token, next)) && next.turn == (if claims.turn == u8::MAX {
                u8::MAX as int
            } else {
                claims.turn + 1
            }) && next.max_turns == claims.max_turns && next.expires_at_ms == sat_add64(
                now_ms,
                ttl_ms,
            ) && next.alias@ == claims.alias@ && next.model_id@ == claims.model_id@ && opt_view(
                next.tenant,
            ) == opt_view(claims.tenant) && opt_view(next.project) == opt_view(claims.project)
                && token@ == signed_token_of(self.secret@, next@) && hmac_sha256_of(
                self.secret@,
                encode_claims_spec(next@),
            ).len() == 32 && wf_claims(next@),
    {
        let expires_at_ms = if now_ms > u64::MAX - ttl_ms {
            u64::MAX
        } else {
            now_ms + ttl_ms
        };
        let turn = if claims.turn == u8::MAX {
            u8::MAX
        } else {
            claims.turn + 1
        };
        let next = StickinessClaims {
            token_id: fresh_token_id(),
            tenant: match &claims.tenant {
                Some(t) => Some(t.clone()),
                None => None,
            },
            project: match &claims.project {
                Some(p) => Some(p.clone()),
                None => None,
            },
            alias: claims.alias.clone(),
            model_id: claims.model_id.clone(),
            expires_at_ms,
            max_turns: claims.max_turns,
            turn,
        };
        let token = self.sign_claims(&next);
        Ok((token, next))
    }

    /// Verify a token: decode, check the tag in constant time, parse the
    /// claims, reject expiry.  Exactly the unexpired tokens this manager
    /// signs are accepted, a token binds one set of claims, and every
    /// refusal is an invalid-approval error.
    #[verifier::rlimit(60)]
    pub fn verify(&self, token: &str, now_ms: u64) -> (r: Result<StickinessClaims, RouterError>)
        ensures
            r matches Ok(c) ==> token@ == signed_token_of(self.secret@, c@) && c.expires_at_ms
                >= now_ms,
            r matches Err(e) ==> code_of(e) == ErrorCode::InvalidApproval,
            valid_session_token(self.secret@, token@, now_ms) ==> r is Ok,
            forall|cv: ClaimsView|
                (token@ == signed_token_of(self.secret@, cv) && wf_claims(cv) && hmac_sha256_of(
                    self.secret@,
                    encode_claims_spec(cv),
                ).len() == 32 && cv.expires_at_ms >= now_ms) ==> (r matches Ok(c) && c@ == cv),
    {
        let decoded = b64_decode(token);
        let raw = match decoded {
            Some(b) => b,
            None => {
                return Err(RouterError::InvalidApproval(String::from_str("bad token encoding")));
            },
        };
        if raw.len() < 32 {
            proof {
                assert forall|cv: ClaimsView|
                    !(token@ == signed_token_of(self.secret@, cv) && wf_claims(cv)
                        && hmac_sha256_of(self.secret@, encode_claims_spec(cv)).len() == 32
                        && cv.expires_at_ms >= now_ms) by {
                    if token@ == signed_token_of(self.secret@, cv) && hmac_sha256_of(
                        self.secret@,
                        encode_claims_spec(cv),
                    ).len() == 32 {
                        assert(raw@ == encode_claims_spec(cv) + hmac_sha256_of(
                            self.secret@,
                            encode_claims_spec(cv),
                        ));
                    }
                }
            }
            return Err(RouterError::InvalidApproval(String::from_str("token too short")));
        }
        let split_at = raw.len() - 32;
        let payload = slice_subrange(raw.as_slice(), 0, split_at);
        let sig = slice_subrange(raw.as_slice(), split_at, raw.len());
        proof {
            assert(raw@ == payload@ + sig@) by {
                assert(raw@ =~= payload@ + sig@);
            }
        }
        let tag_ok = hmac_verify(self.secret.as_slice(), payload, sig);
        if !tag_ok {
            proof {
                assert forall|cv: ClaimsView|
                    !(token@ == signed_token_of(self.secret@, cv) && wf_claims(cv)
                        && hmac_sha256_of(self.secret@, encode_claims_spec(cv)).len() == 32
                        && cv.expires_at_ms >= now_ms) by {
                    if token@ == signed_token_of(self.secret@, cv) && hmac_sha256_of(
                        self.secret@,
                        encode_claims_spec(cv),
                    ).len() == 32 {
                        assert(raw@ == encode_claims_spec(cv) + hmac_sha256_of(
                            self.secret@,
                            encode_claims_spec(cv),
                        ));
                        lemma_concat_split(
                            payload@,
                            sig@,
                            encode_claims_spec(cv),
                            hmac_sha256_of(self.secret@, encode_claims_spec(cv)),
                        );
                    }
                }
            }
            return Err(RouterError::InvalidApproval(String::from_str("signature mismatch")));
        }
        let parsed = decode_claims(payload);
        let claims = match parsed {
            Some(c) => c,
            None => {
                proof {
                    assert forall|cv: ClaimsView|
                        !(token@ == signed_token_of(self.secret@, cv) && wf_claims(cv)
                            && hmac_sha256_of(self.secret@, encode_claims_spec(cv)).len() == 32
                            && cv.expires_at_ms >= now_ms) by {
                        if token@ == signed_token_of(self.secret@, cv) && wf_claims(cv)
                            && hmac_sha256_of(self.secret@, encode_claims_spec(cv)).len() == 32 {
                            assert(raw@ == encode_claims_spec(cv) + hmac_sha256_of(
                                self.secret@,
                                encode_claims_spec(cv),
                            ));
                            lemma_concat_split(
                                payload@,
                                sig@,
                                encode_claims_spec(cv),
                                hmac_sha256_of(self.secret@, encode_claims_spec(cv)),
                            );
                        }
                    }
                }
                return Err(RouterError::InvalidApproval(String::from_str("invalid claims")));
            },
        };
        if claims.expires_at_ms < now_ms {
            proof {
                assert forall|cv: ClaimsView|
                    !(token@ == signed_token_of(self.secret@, cv) && wf_claims(cv)
                        && hmac_sha256_of(self.secret@, encode_claims_spec(cv)).len() == 32
                        && cv.expires_at_ms >= now_ms) by {
                    if token@ == signed_token_of(self.secret@, cv) && wf_claims(cv)
                        && hmac_sha256_of(self.secret@, encode_claims_spec(cv)).len() == 32 {
                        assert(raw@ == encode_claims_spec(cv) + hmac_sha256_of(
                            self.secret@,
                            encode_claims_spec(cv),
                        ));
                        lemma_concat_split(
                            payload@,
                            sig@,
                            encode_claims_spec(cv),
                            hmac_sha256_of(self.secret@, encode_claims_spec(cv)),
                        );
                    }
                }
            }
            return Err(RouterError::InvalidApproval(String::from_str("token expired")));
        }
        proof {
            assert(token@ == signed_token_of(self.secret@, claims@));
            assert forall|cv: ClaimsView|
                (token@ == signed_token_of(self.secret@, cv) && wf_claims(cv) && hmac_sha256_of(
                    self.secret@,
                    encode_claims_spec(cv),
                ).len() == 32 && cv.expires_at_ms >= now_ms) implies claims@ == cv by {
                assert(raw@ == encode_claims_spec(cv) + hmac_sha256_of(
                    self.secret@,
                    encode_claims_spec(cv),
                ));
                lemma_concat_split(
                    payload@,
                    sig@,
                    encode_claims_spec(cv),
                    hmac_sha256_of(self.secret@, encode_claims_spec(cv)),
                );
            }
        }
        Ok(claims)
    }
}

} // verus!
