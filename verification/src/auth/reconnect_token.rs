//! Reconnect tokens: a client id and a host label, framed as bytes and
//! signed with the server's key.
//!
//! A token does not expire: it verifies for as long as the key is in use.
//!
//! A token is the frame followed by its tag. The frame is the length of the
//! client id's UTF-8 bytes as eight little-endian bytes, those bytes, then
//! the same for the host label. The tag is the HMAC-SHA256 of the frame.

use vstd::prelude::*;
use vstd::bytes::{
    lemma_auto_spec_u64_to_from_le_bytes, spec_u64_from_le_bytes, spec_u64_to_le_bytes,
    u64_from_le_bytes, u64_to_le_bytes,
};
use vstd::slice::{slice_subrange, slice_to_vec};
use vstd::utf8::{
    decode_utf8, decode_utf8_encode_utf8, encode_utf8, encode_utf8_decode_utf8,
    encode_utf8_valid_utf8, valid_utf8,
};
use crate::protocol::{ClientId, ReconnectToken};

verus! {

/// The server-held key that signs reconnect tokens.
#[derive(Debug)]
pub struct SigKey(pub Vec<u8>);

impl View for SigKey {
    type V = Seq<u8>;

    open spec fn view(&self) -> Seq<u8> {
        self.0@
    }
}

/// What a reconnect token binds: a client and the host label it was granted.
#[derive(Debug)]
pub struct ReconnectTokenPayload {
    pub sub_domain: String,
    pub client_id: ClientId,
}

pub struct PayloadView {
    pub sub_domain: Seq<char>,
    pub client_id: Seq<char>,
}

impl View for ReconnectTokenPayload {
    type V = PayloadView;

    open spec fn view(&self) -> PayloadView {
        PayloadView { sub_domain: self.sub_domain@, client_id: self.client_id@ }
    }
}

/// Why a reconnect token is refused.
#[derive(Debug, Clone, Copy, PartialEq, Eq, Structural)]
pub enum TokenError {
    /// The tag is not the one the key gives for the frame.
    InvalidSignature,
    /// The bytes are no frame, or a framed text is not UTF-8.
    Malformed,
}

/// The HMAC-SHA256 tag of `message` under `key`.
pub uninterp spec fn mac_of(key: Seq<u8>, message: Seq<u8>) -> Seq<u8>;

/// `HMAC::mac` of the crate hmac-sha256: the 32-byte HMAC-SHA256 tag of the
/// message under the key, a function of the two.
#[verifier::external_body]
fn mac(message: &[u8], key: &[u8]) -> (tag: Vec<u8>)
    ensures
        tag@ == mac_of(key@, message@),
        tag@.len() == 32,
{
    hmac_sha256::HMAC::mac(message, key).to_vec()
}

/// `String::from_utf8` of std: the text that the bytes encode, where they
/// are valid UTF-8, and nothing where they are not.
#[verifier::external_body]
fn text_from_utf8(bytes: Vec<u8>) -> (r: Option<String>)
    ensures
        match r {
            Some(s) => valid_utf8(bytes@) && s@ == decode_utf8(bytes@),
            None => !valid_utf8(bytes@),
        },
{
    match String::from_utf8(bytes) {
        Ok(s) => Some(s),
        Err(_) => None,
    }
}

/// A length-prefixed field: eight bytes of length, then the bytes.
pub open spec fn field(bytes: Seq<u8>) -> Seq<u8> {
    spec_u64_to_le_bytes(bytes.len() as u64) + bytes
}

/// The frame of a payload.
pub open spec fn frame_of(p: PayloadView) -> Seq<u8> {
    field(encode_utf8(p.client_id)) + field(encode_utf8(p.sub_domain))
}

/// The token that `key` gives for a payload.
pub open spec fn minted(p: PayloadView, key: Seq<u8>) -> Seq<u8> {
    frame_of(p) + mac_of(key, frame_of(p))
}

/// Both texts of the payload are short enough for their lengths to be
/// written in eight bytes. Every payload that fits in memory is.
pub open spec fn framable(p: PayloadView) -> bool {
    encode_utf8(p.client_id).len() <= u64::MAX && encode_utf8(p.sub_domain).len() <= u64::MAX
}

/// Where the two fields of a token lie.
pub struct Layout {
    pub id_len: int,
    pub sub_len: int,
}

impl Layout {
    pub open spec fn id_bytes(self, t: Seq<u8>) -> Seq<u8> {
        t.subrange(8, 8 + self.id_len)
    }

    pub open spec fn sub_bytes(self, t: Seq<u8>) -> Seq<u8> {
        t.subrange(16 + self.id_len, self.frame_len())
    }

    pub open spec fn frame_len(self) -> int {
        16 + self.id_len + self.sub_len
    }
}

/// The layout of the token's frame, if the bytes begin with two well-formed
/// fields.
pub open spec fn layout_of(t: Seq<u8>) -> Option<Layout> {
    if t.len() < 8 {
        None
    } else {
        let id_len = spec_u64_from_le_bytes(t.subrange(0, 8)) as int;
        if t.len() - 8 < id_len || t.len() - 8 - id_len < 8 {
            None
        } else {
            let sub_len = spec_u64_from_le_bytes(t.subrange(8 + id_len, 16 + id_len)) as int;
            if t.len() - 16 - id_len < sub_len {
                None
            } else {
                Some(Layout { id_len, sub_len })
            }
        }
    }
}

/// The part of a token that its tag signs: the frame, where the bytes
/// have the layout of one.
pub open spec fn signed_part_of(t: Seq<u8>) -> Option<Seq<u8>> {
    match layout_of(t) {
        None => None,
        Some(l) => Some(t.take(l.frame_len())),
    }
}

/// What the token `t` gives once the tag of its frame is known to be `tag`:
/// bytes without the layout of a frame are malformed; bytes behind the frame
/// that are not the tag are an invalid signature; framed text that is not
/// UTF-8 is malformed.
pub open spec fn unsealed(t: Seq<u8>, tag: Seq<u8>) -> Result<PayloadView, TokenError> {
    match layout_of(t) {
        None => Err(TokenError::Malformed),
        Some(l) => {
            if t.skip(l.frame_len()) != tag {
                Err(TokenError::InvalidSignature)
            } else if !valid_utf8(l.id_bytes(t)) || !valid_utf8(l.sub_bytes(t)) {
                Err(TokenError::Malformed)
            } else {
                Ok(
                    PayloadView {
                        sub_domain: decode_utf8(l.sub_bytes(t)),
                        client_id: decode_utf8(l.id_bytes(t)),
                    },
                )
            }
        },
    }
}

/// What verifying the token `t` under `key` gives.
pub open spec fn verified(t: Seq<u8>, key: Seq<u8>) -> Result<PayloadView, TokenError> {
    match signed_part_of(t) {
        None => Err(TokenError::Malformed),
        Some(frame) => unsealed(t, mac_of(key, frame)),
    }
}

/// The bytes of an optional slice.
pub open spec fn bytes_of(part: Option<&[u8]>) -> Option<Seq<u8>> {
    match part {
        Some(bytes) => Some(bytes@),
        None => None,
    }
}

/// The view of a verification result.
pub open spec fn payload_outcome(r: Result<ReconnectTokenPayload, TokenError>) -> Result<
    PayloadView,
    TokenError,
> {
    match r {
        Ok(p) => Ok(p@),
        Err(e) => Err(e),
    }
}

/// Whether two byte strings are equal, in time that depends on their
/// lengths only.
pub fn bytes_equal(a: &[u8], b: &[u8]) -> (r: bool)
    ensures
        r == (a@ == b@),
{
    if a.len() != b.len() {
        return false;
    }
    let mut diff: u8 = 0;
    let mut i: usize = 0;
    assert(a@.take(0) =~= b@.take(0));
    while i < a.len()
        invariant
            i <= a.len(),
            a.len() == b.len(),
            diff == 0 <==> a@.take(i as int) == b@.take(i as int),
        decreases a.len() - i,
    {
        let x = a[i];
        let y = b[i];
        let before = diff;
        diff = diff | (x ^ y);
        proof {
            assert((before | (x ^ y)) == 0 <==> (before == 0 && x == y)) by (bit_vector);
            assert(a@.take(i + 1) == a@.take(i as int).push(x));
            assert(b@.take(i + 1) == b@.take(i as int).push(y));
            if a@.take(i + 1) == b@.take(i + 1) {
                assert(a@.take(i + 1).drop_last() == b@.take(i + 1).drop_last());
                assert(a@.take(i as int) == a@.take(i + 1).drop_last());
                assert(b@.take(i as int) == b@.take(i + 1).drop_last());
                assert(a@.take(i + 1).last() == x);
                assert(b@.take(i + 1).last() == y);
            }
        }
        i = i + 1;
    }
    assert(a@.take(a.len() as int) == a@);
    assert(b@.take(b.len() as int) == b@);
    diff == 0
}

fn push_field(out: &mut Vec<u8>, bytes: &[u8])
    ensures
        final(out)@ == old(out)@ + field(bytes@),
{
    let mut len = u64_to_le_bytes(bytes.len() as u64);
    let mut body = slice_to_vec(bytes);
    out.append(&mut len);
    out.append(&mut body);
    assert(out@ =~= old(out)@ + field(bytes@));
}

/// The lengths of the two fields of a token, where its bytes begin with two
/// well-formed fields.
fn read_layout(t: &[u8]) -> (r: Option<(usize, usize)>)
    ensures
        match r {
            Some((id_len, sub_len)) => layout_of(t@) == Some(
                Layout { id_len: id_len as int, sub_len: sub_len as int },
            ) && 16 + id_len + sub_len <= t@.len(),
            None => layout_of(t@) is None,
        },
{
    let n = t.len();
    if n < 8 {
        return None;
    }
    let id_len = u64_from_le_bytes(slice_subrange(t, 0, 8));
    if ((n - 8) as u64) < id_len {
        return None;
    }
    let id_end: usize = 8 + id_len as usize;
    if n - id_end < 8 {
        return None;
    }
    let sub_len = u64_from_le_bytes(slice_subrange(t, id_end, id_end + 8));
    if ((n - id_end - 8) as u64) < sub_len {
        return None;
    }
    Some((id_len as usize, sub_len as usize))
}

impl ReconnectToken {
    /// The token made of a frame and the tag of the frame.
    pub fn seal(frame: Vec<u8>, tag: Vec<u8>) -> (token: ReconnectToken)
        ensures
            token@ == frame@ + tag@,
    {
        let mut bytes = frame;
        let mut tag = tag;
        bytes.append(&mut tag);
        ReconnectToken(bytes)
    }

    /// The part of the token that its tag signs, where the token has the
    /// layout of a frame.
    pub fn signed_part(&self) -> (r: Option<&[u8]>)
        ensures
            bytes_of(r) == signed_part_of(self@),
    {
        let t = self.0.as_slice();
        let n = t.len();
        match read_layout(t) {
            Some((id_len, sub_len)) => {
                let frame = slice_subrange(t, 0, 16 + id_len + sub_len);
                assert(frame@ == t@.take(16 + id_len + sub_len));
                Some(frame)
            },
            None => None,
        }
    }
}

impl ReconnectTokenPayload {
    /// The frame of this payload: what the tag of its token signs.
    pub fn frame(&self) -> (r: Vec<u8>)
        ensures
            r@ == frame_of(self@),
    {
        let mut out: Vec<u8> = Vec::new();
        push_field(&mut out, self.client_id.0.as_str().as_bytes());
        push_field(&mut out, self.sub_domain.as_str().as_bytes());
        assert(out@ =~= frame_of(self@));
        out
    }

    /// Mints the token of this payload under `key`.
    pub fn mint(&self, key: &SigKey) -> (token: ReconnectToken)
        ensures
            token@ == minted(self@, key@),
    {
        let frame = self.frame();
        let tag = mac(frame.as_slice(), key.0.as_slice());
        ReconnectToken::seal(frame, tag)
    }

    /// Reads what a token binds, given the tag that its frame must carry.
    pub fn unseal(token: &ReconnectToken, tag: &[u8]) -> (r: Result<
        ReconnectTokenPayload,
        TokenError,
    >)
        ensures
            payload_outcome(r) == unsealed(token@, tag@),
    {
        let t = token.0.as_slice();
        let n = t.len();
        let (id_len, sub_len) = match read_layout(t) {
            Some(lengths) => lengths,
            None => {
                return Err(TokenError::Malformed);
            },
        };
        let id_end: usize = 8 + id_len;
        let sub_start: usize = id_end + 8;
        let frame_end: usize = sub_start + sub_len;
        assert(t@.skip(frame_end as int) == t@.subrange(frame_end as int, n as int));
        if !bytes_equal(slice_subrange(t, frame_end, n), tag) {
            return Err(TokenError::InvalidSignature);
        }
        let id = text_from_utf8(slice_to_vec(slice_subrange(t, 8, id_end)));
        let sub = text_from_utf8(slice_to_vec(slice_subrange(t, sub_start, frame_end)));
        match (id, sub) {
            (Some(id), Some(sub)) => Ok(
                ReconnectTokenPayload { sub_domain: sub, client_id: ClientId(id) },
            ),
            _ => Err(TokenError::Malformed),
        }
    }

    /// Verifies a token under `key` and returns what it binds. Nothing
    /// besides the token and the key is read, and nothing is changed.
    pub fn verify(token: &ReconnectToken, key: &SigKey) -> (r: Result<
        ReconnectTokenPayload,
        TokenError,
    >)
        ensures
            payload_outcome(r) == verified(token@, key@),
    {
        match token.signed_part() {
            None => Err(TokenError::Malformed),
            Some(frame) => {
                let tag = mac(frame, key.0.as_slice());
                ReconnectTokenPayload::unseal(token, tag.as_slice())
            },
        }
    }
}

/// The layout that framing gives a payload.
pub open spec fn layout_for(p: PayloadView) -> Layout {
    Layout {
        id_len: encode_utf8(p.client_id).len() as int,
        sub_len: encode_utf8(p.sub_domain).len() as int,
    }
}

/// Bytes that begin with a payload's frame have that payload's layout.
proof fn lemma_layout_of_frame(p: PayloadView, rest: Seq<u8>)
    requires
        framable(p),
    ensures
        layout_of(frame_of(p) + rest) == Some(layout_for(p)),
        frame_of(p).len() == layout_for(p).frame_len(),
        (frame_of(p) + rest).take(layout_for(p).frame_len()) == frame_of(p),
        (frame_of(p) + rest).skip(layout_for(p).frame_len()) == rest,
        layout_for(p).id_bytes(frame_of(p) + rest) == encode_utf8(p.client_id),
        layout_for(p).sub_bytes(frame_of(p) + rest) == encode_utf8(p.sub_domain),
{
    lemma_auto_spec_u64_to_from_le_bytes();
    let id = encode_utf8(p.client_id);
    let sub = encode_utf8(p.sub_domain);
    let t = frame_of(p) + rest;
    let l = layout_for(p);
    let id_len = spec_u64_to_le_bytes(id.len() as u64);
    let sub_len = spec_u64_to_le_bytes(sub.len() as u64);
    assert(t.subrange(0, 8) =~= id_len);
    assert(t.subrange(8 + l.id_len, 16 + l.id_len) =~= sub_len);
    assert(t.take(l.frame_len()) =~= frame_of(p));
    assert(t.skip(l.frame_len()) =~= rest);
    assert(l.id_bytes(t) =~= id);
    assert(l.sub_bytes(t) =~= sub);
}

/// A minted token verifies under the key that minted it, and gives back the
/// payload exactly.
pub proof fn lemma_minted_token_verifies(p: PayloadView, key: Seq<u8>)
    requires
        framable(p),
    ensures
        verified(minted(p, key), key) == Ok::<PayloadView, TokenError>(p),
{
    broadcast use encode_utf8_valid_utf8, encode_utf8_decode_utf8;

    lemma_layout_of_frame(p, mac_of(key, frame_of(p)));
}

/// Under a key that gives the frame another tag, a minted token fails with
/// an invalid signature. Two keys may give one tag: a key shorter than a
/// block of the hash and the same key followed by zero bytes always do.
pub proof fn lemma_other_key_is_refused(p: PayloadView, key: Seq<u8>, other: Seq<u8>)
    requires
        framable(p),
        mac_of(other, frame_of(p)) != mac_of(key, frame_of(p)),
    ensures
        verified(minted(p, key), other) == Err::<PayloadView, TokenError>(
            TokenError::InvalidSignature,
        ),
{
    lemma_layout_of_frame(p, mac_of(key, frame_of(p)));
}

/// Whatever verifies is a minted token: bytes that verify under a key are
/// exactly the token which that key mints for the payload they give.
pub proof fn lemma_verified_token_is_minted(t: Seq<u8>, key: Seq<u8>)
    requires
        verified(t, key) is Ok,
    ensures
        framable(verified(t, key)->Ok_0),
        t == minted(verified(t, key)->Ok_0, key),
{
    broadcast use decode_utf8_encode_utf8;

    lemma_auto_spec_u64_to_from_le_bytes();
    let l = layout_of(t)->0;
    let p = verified(t, key)->Ok_0;
    let id = l.id_bytes(t);
    let sub = l.sub_bytes(t);
    assert(encode_utf8(p.client_id) == id);
    assert(encode_utf8(p.sub_domain) == sub);
    let a = t.subrange(0, 8);
    let b = t.subrange(8 + l.id_len, 16 + l.id_len);
    assert(spec_u64_to_le_bytes(spec_u64_from_le_bytes(a)) == a);
    assert(spec_u64_to_le_bytes(spec_u64_from_le_bytes(b)) == b);
    assert(id.len() == l.id_len);
    assert(sub.len() == l.sub_len);
    assert(spec_u64_from_le_bytes(a) == id.len() as u64);
    assert(spec_u64_from_le_bytes(b) == sub.len() as u64);
    assert(t.take(l.frame_len()) =~= frame_of(p));
    assert(t =~= t.take(l.frame_len()) + t.skip(l.frame_len()));
}

/// Bytes that differ from the minted token never verify as its payload: a
/// changed token fails, or speaks for another payload under a tag of its own.
pub proof fn lemma_changed_token_loses_the_payload(
    p: PayloadView,
    key: Seq<u8>,
    t: Seq<u8>,
)
    requires
        t != minted(p, key),
    ensures
        verified(t, key) != Ok::<PayloadView, TokenError>(p),
{
    if verified(t, key) is Ok {
        lemma_verified_token_is_minted(t, key);
    }
}

/// The bytes `t` with bit `bit` of byte `at` flipped.
pub open spec fn with_bit_flipped(t: Seq<u8>, at: int, bit: u8) -> Seq<u8> {
    t.update(at, t[at] ^ (1u8 << bit))
}

/// Flipping one bit of a minted token's tag makes verification fail with an
/// invalid signature.
pub proof fn lemma_flipped_tag_bit_is_refused(p: PayloadView, key: Seq<u8>, at: int, bit: u8)
    requires
        framable(p),
        frame_of(p).len() <= at < minted(p, key).len(),
        bit < 8,
    ensures
        verified(with_bit_flipped(minted(p, key), at, bit), key) == Err::<
            PayloadView,
            TokenError,
        >(TokenError::InvalidSignature),
{
    let tag = mac_of(key, frame_of(p));
    let t = minted(p, key);
    let k = at - frame_of(p).len();
    let changed = tag.update(k, tag[k] ^ (1u8 << bit));
    assert(with_bit_flipped(t, at, bit) =~= frame_of(p) + changed);
    lemma_layout_of_frame(p, changed);
    let x = tag[k];
    assert(x ^ (1u8 << bit) != x) by (bit_vector)
        requires
            bit < 8,
    ;
    assert(changed[k] != tag[k]);
}

/// Flipping any one bit of a minted token gives bytes that do not verify
/// as its payload.
pub proof fn lemma_flipped_bit_loses_the_payload(
    p: PayloadView,
    key: Seq<u8>,
    at: int,
    bit: u8,
)
    requires
        0 <= at < minted(p, key).len(),
        bit < 8,
    ensures
        verified(with_bit_flipped(minted(p, key), at, bit), key) != Ok::<PayloadView, TokenError>(
            p,
        ),
{
    let t = minted(p, key);
    let x = t[at];
    assert(x ^ (1u8 << bit) != x) by (bit_vector)
        requires
            bit < 8,
    ;
    assert(with_bit_flipped(t, at, bit)[at] != t[at]);
    lemma_changed_token_loses_the_payload(p, key, with_bit_flipped(t, at, bit));
}

/// The key gives the signed part of `t` a tag as long as the tag of
/// `message` and, where the signed part is another message, another tag:
/// `t` does not stand on a collision of tags with `message`.
pub open spec fn no_collision_with(t: Seq<u8>, key: Seq<u8>, message: Seq<u8>) -> bool {
    match signed_part_of(t) {
        Some(other) => mac_of(key, other).len() == mac_of(key, message).len() && (other
            != message ==> mac_of(key, other) != mac_of(key, message)),
        None => true,
    }
}

/// Flipping any one bit of a minted token makes verification fail, unless
/// the flipped bytes stand on a collision of tags with the token's frame.
pub proof fn lemma_flipped_bit_is_refused(p: PayloadView, key: Seq<u8>, at: int, bit: u8)
    requires
        framable(p),
        0 <= at < minted(p, key).len(),
        bit < 8,
        no_collision_with(with_bit_flipped(minted(p, key), at, bit), key, frame_of(p)),
    ensures
        verified(with_bit_flipped(minted(p, key), at, bit), key) is Err,
{
    let t = minted(p, key);
    let flipped = with_bit_flipped(t, at, bit);
    let frame = frame_of(p);
    let x = t[at];
    assert(x ^ (1u8 << bit) != x) by (bit_vector)
        requires
            bit < 8,
    ;
    assert(flipped[at] != t[at]);
    if verified(flipped, key) is Ok {
        let q = verified(flipped, key)->Ok_0;
        lemma_verified_token_is_minted(flipped, key);
        let other = frame_of(q);
        lemma_layout_of_frame(q, mac_of(key, other));
        lemma_layout_of_frame(p, mac_of(key, frame));
        assert(signed_part_of(flipped) == Some(other));
        assert(flipped.len() == t.len());
        assert(other.len() == frame.len());
        let n = frame.len() as int;
        assert(flipped.take(n) == other);
        assert(t.take(n) == frame);
        if at < n {
            assert(other[at] == flipped[at]);
            assert(frame[at] == t[at]);
            assert(other != frame);
            assert(flipped.skip(n) =~= t.skip(n));
            assert(mac_of(key, other) == mac_of(key, frame));
        } else {
            assert(flipped.take(n) =~= t.take(n));
            assert(flipped == t);
        }
    }
}

} // verus!
