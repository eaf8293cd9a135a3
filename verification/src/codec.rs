use vstd::prelude::*;

use crate::errors::CertError;
use crate::identity::{id_wf, Identity};

verus! {

/// The payload a certification token carries inside its free-form metadata
/// field: whether the certification is still valid, and whom it was issued
/// to. `original_recipient_id` never changes after mint, whatever happens to
/// the token's ownership later.
#[derive(Debug)]
pub struct CertificationExtraMetadata {
    pub valid: bool,
    pub original_recipient_id: Identity,
}

impl CertificationExtraMetadata {
    pub open spec fn wf(&self) -> bool {
        self.original_recipient_id.wf()
    }
}

/// The opening bytes of an encoded payload: `{"valid":`.
pub open spec fn head_bytes() -> Seq<u8> {
    seq![123u8, 34, 118, 97, 108, 105, 100, 34, 58]
}

/// The literal `true` or `false`.
pub open spec fn bool_bytes(v: bool) -> Seq<u8> {
    if v {
        seq![116u8, 114, 117, 101]
    } else {
        seq![102u8, 97, 108, 115, 101]
    }
}

/// The bytes between the flag and the recipient: `,"original_recipient_id":"`.
pub open spec fn mid_bytes() -> Seq<u8> {
    seq![
        44u8, 34, 111, 114, 105, 103, 105, 110, 97, 108, 95, 114, 101, 99, 105, 112, 105, 101,
        110, 116, 95, 105, 100, 34, 58, 34,
    ]
}

/// The closing bytes: `"}`.
pub open spec fn tail_bytes() -> Seq<u8> {
    seq![34u8, 125]
}

/// Everything of an encoding that stands before the recipient bytes.
pub open spec fn fixed_bytes(v: bool) -> Seq<u8> {
    head_bytes() + bool_bytes(v) + mid_bytes()
}

/// The encoding of a payload: a self-describing text record holding the
/// validity flag and the original recipient.
pub open spec fn spec_encode(valid: bool, id: Seq<u8>) -> Seq<u8> {
    fixed_bytes(valid) + id + tail_bytes()
}

/// Whether `s` is an encoding that carries the flag `v`.
pub open spec fn flag_matches(s: Seq<u8>, v: bool) -> bool {
    &&& s.len() >= fixed_bytes(v).len() + 2
    &&& s.subrange(0, fixed_bytes(v).len() as int) == fixed_bytes(v)
    &&& s.subrange(s.len() - 2, s.len() as int) == tail_bytes()
    &&& id_wf(s.subrange(fixed_bytes(v).len() as int, s.len() - 2))
}

/// The recipient bytes of an encoding that carries the flag `v`.
pub open spec fn decoded_id(s: Seq<u8>, v: bool) -> Seq<u8> {
    s.subrange(fixed_bytes(v).len() as int, s.len() - 2)
}

/// What a byte string decodes to, if anything: the validity flag and the
/// recipient bytes of the one payload it encodes.
pub open spec fn spec_decode(s: Seq<u8>) -> Option<(bool, Seq<u8>)> {
    if flag_matches(s, true) {
        Some((true, decoded_id(s, true)))
    } else if flag_matches(s, false) {
        Some((false, decoded_id(s, false)))
    } else {
        None
    }
}

/// Decoding inverts encoding: every well-formed payload comes back unchanged.
pub proof fn lemma_decode_encode(valid: bool, id: Seq<u8>)
    requires
        id_wf(id),
    ensures
        spec_decode(spec_encode(valid, id)) == Some((valid, id)),
{
    let s = spec_encode(valid, id);
    let f = fixed_bytes(valid);
    assert(s.len() == f.len() + id.len() + 2);
    assert(s.subrange(0, f.len() as int) =~= f);
    assert(s.subrange(s.len() - 2, s.len() as int) =~= tail_bytes());
    assert(decoded_id(s, valid) =~= id);
    assert(flag_matches(s, valid));
    if !valid {
        if flag_matches(s, true) {
            assert(s.subrange(0, fixed_bytes(true).len() as int)[9] == fixed_bytes(true)[9]);
            assert(s[9] == 116);
            assert(f[9] == 102);
            assert(false);
        }
    }
}

/// An encoding determines its payload: whatever decodes was encoded from
/// exactly the flag and recipient that came out.
pub proof fn lemma_encode_decode(s: Seq<u8>, valid: bool, id: Seq<u8>)
    requires
        spec_decode(s) == Some((valid, id)),
    ensures
        s == spec_encode(valid, id),
        id_wf(id),
{
    let f = fixed_bytes(valid);
    assert(flag_matches(s, valid));
    assert forall|i: int| 0 <= i < s.len() implies s[i] == spec_encode(valid, id)[i] by {
        if i < f.len() {
            assert(s.subrange(0, f.len() as int)[i] == f[i]);
        } else if i < s.len() - 2 {
            assert(decoded_id(s, valid)[i - f.len()] == s[i]);
        } else {
            assert(s.subrange(s.len() - 2, s.len() as int)[i - (s.len() - 2)]
                == tail_bytes()[i - (s.len() - 2)]);
        }
    }
    assert(s =~= spec_encode(valid, id));
}

/// Appends the fixed opening of an encoding with the flag `v`.
fn push_fixed(out: &mut Vec<u8>, v: bool)
    ensures
        final(out)@ == old(out)@ + fixed_bytes(v),
{
    out.push(123);
    out.push(34);
    out.push(118);
    out.push(97);
    out.push(108);
    out.push(105);
    out.push(100);
    out.push(34);
    out.push(58);
    if v {
        out.push(116);
        out.push(114);
        out.push(117);
        out.push(101);
    } else {
        out.push(102);
        out.push(97);
        out.push(108);
        out.push(115);
        out.push(101);
    }
    out.push(44);
    out.push(34);
    out.push(111);
    out.push(114);
    out.push(105);
    out.push(103);
    out.push(105);
    out.push(110);
    out.push(97);
    out.push(108);
    out.push(95);
    out.push(114);
    out.push(101);
    out.push(99);
    out.push(105);
    out.push(112);
    out.push(105);
    out.push(101);
    out.push(110);
    out.push(116);
    out.push(95);
    out.push(105);
    out.push(100);
    out.push(34);
    out.push(58);
    out.push(34);
    assert(out@ =~= old(out)@ + fixed_bytes(v));
}

/// Encodes a payload into the byte string stored in a token's metadata.
pub fn encode(p: &CertificationExtraMetadata) -> (r: Vec<u8>)
    ensures
        r@ == spec_encode(p.valid, p.original_recipient_id@),
{
    let mut out: Vec<u8> = Vec::new();
    push_fixed(&mut out, p.valid);
    let id = p.original_recipient_id.as_bytes();
    let mut i: usize = 0;
    while i < id.len()
        invariant
            i <= id.len(),
            id@ == p.original_recipient_id@,
            out@ == fixed_bytes(p.valid) + id@.subrange(0, i as int),
        decreases id.len() - i,
    {
        out.push(id[i]);
        assert(id@.subrange(0, i + 1 as int) =~= id@.subrange(0, i as int).push(id@[i as int]));
        assert(out@ =~= fixed_bytes(p.valid) + id@.subrange(0, i + 1 as int));
        i += 1;
    }
    assert(id@.subrange(0, id@.len() as int) =~= id@);
    out.push(34);
    out.push(125);
    assert(out@ =~= spec_encode(p.valid, p.original_recipient_id@));
    out
}

/// Tries to read `s` as an encoding that carries the flag `v`; on success
/// hands back the recipient.
fn match_fixed(s: &Vec<u8>, v: bool) -> (r: Option<Identity>)
    ensures
        r is Some <==> flag_matches(s@, v),
        r matches Some(id) ==> id@ == decoded_id(s@, v) && id.wf(),
{
    let mut pat: Vec<u8> = Vec::new();
    push_fixed(&mut pat, v);
    assert(pat@ == fixed_bytes(v));
    if s.len() < pat.len() + 2 {
        return None;
    }
    let mut i: usize = 0;
    while i < pat.len()
        invariant
            i <= pat.len(),
            pat@ == fixed_bytes(v),
            s@.len() >= pat@.len() + 2,
            forall|j: int| 0 <= j < i ==> s@[j] == pat@[j],
        decreases pat.len() - i,
    {
        if s[i] != pat[i] {
            proof {
                if flag_matches(s@, v) {
                    assert(s@.subrange(0, fixed_bytes(v).len() as int)[i as int]
                        == fixed_bytes(v)[i as int]);
                }
            }
            return None;
        }
        i += 1;
    }
    assert(s@.subrange(0, fixed_bytes(v).len() as int) =~= fixed_bytes(v));
    let n = s.len();
    if s[n - 2] != 34 || s[n - 1] != 125 {
        proof {
            if flag_matches(s@, v) {
                assert(s@.subrange(s@.len() - 2, s@.len() as int)[0] == tail_bytes()[0]);
                assert(s@.subrange(s@.len() - 2, s@.len() as int)[1] == tail_bytes()[1]);
            }
        }
        return None;
    }
    assert(s@.subrange(s@.len() - 2, s@.len() as int) =~= tail_bytes());
    let mut idb: Vec<u8> = Vec::new();
    let mut j: usize = pat.len();
    while j < n - 2
        invariant
            pat@.len() <= j <= n - 2,
            n == s@.len(),
            pat@ == fixed_bytes(v),
            s@.len() >= pat@.len() + 2,
            idb@ == s@.subrange(pat@.len() as int, j as int),
        decreases n - 2 - j,
    {
        idb.push(s[j]);
        assert(s@.subrange(pat@.len() as int, j + 1 as int)
            =~= s@.subrange(pat@.len() as int, j as int).push(s@[j as int]));
        j += 1;
    }
    assert(idb@ == decoded_id(s@, v));
    match Identity::new(idb) {
        Some(id) => Some(id),
        None => None,
    }
}

/// Decodes the byte string stored in a token's metadata. A string that is not
/// the encoding of any well-formed payload is refused as a `CodecError`: the
/// codec never defaults.
pub fn decode(s: &Vec<u8>) -> (r: Result<CertificationExtraMetadata, CertError>)
    ensures
        r matches Ok(p) ==> spec_decode(s@) == Some((p.valid, p.original_recipient_id@))
            && p.wf(),
        r is Err ==> r == Err::<CertificationExtraMetadata, CertError>(CertError::CodecError)
            && spec_decode(s@) is None,
{
    if let Some(id) = match_fixed(s, true) {
        return Ok(CertificationExtraMetadata { valid: true, original_recipient_id: id });
    }
    if let Some(id) = match_fixed(s, false) {
        return Ok(CertificationExtraMetadata { valid: false, original_recipient_id: id });
    }
    Err(CertError::CodecError)
}

} // verus!
